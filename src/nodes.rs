//! The node variants and the one operation they share: read the store,
//! write back, and either hand control to another node or yield a frame.

use vstd::prelude::*;
use crate::error::RunError;
use crate::node_id::{NodeId, NameRegistry, name_id, trim_of, id_text};
use crate::state::{Attribute, AttrValue, AnimationState, read_u64};

verus! {

/// Progress that makes one whole frame, in millionths of a frame; also the
/// number of microseconds in a second.
pub const FRAME_UNITS: u64 = 1_000_000;

/// A scale of this many thousandths leaves the rate unchanged.
pub const SCALE_ONE: u64 = 1000;

/// What one node hands back to the driver.
#[derive(Debug, Clone)]
pub enum NodeResult {
    /// Control passes to another node within the same tick.
    Next(NodeId),
    /// The tick ends on this frame: its position and its asset path.
    Done(usize, String),
}

impl NodeResult {
    /// `Next(NodeID(0x...))` or `Done`.
    pub fn to_text(&self) -> (r: String)
        ensures
            r@ == match self {
                NodeResult::Next(id) => "Next("@ + id_text(id.0) + ")"@,
                NodeResult::Done(..) => "Done"@,
            },
    {
        match self {
            NodeResult::Next(id) => {
                let mut out = "Next(".to_owned();
                let inner = id.to_text();
                out.append(inner.as_str());
                out.append(")");
                out
            },
            NodeResult::Done(..) => "Done".to_owned(),
        }
    }
}

/// The outcome of a node, as the contracts see it.
#[derive(Debug, Clone, Copy, PartialEq, Eq, Structural)]
pub enum Step {
    Next(NodeId),
    Done(usize),
}

/// The unsigned integer under `key`, or `default` where there is none.
pub open spec fn u64_or(values: Map<Attribute, AttrValue>, key: Attribute, default: u64) -> Result<u64, RunError> {
    match read_u64(values, key) {
        Ok(Some(v)) => Ok(v),
        Ok(None) => Ok(default),
        Err(_) => Err(RunError::AttributeTypeMismatch(key)),
    }
}

/// The values after a node's writes.
pub open spec fn apply_writes(values: Map<Attribute, AttrValue>, writes: Map<Attribute, AttrValue>) -> Map<Attribute, AttrValue> {
    values.union_prefer_right(writes)
}

/// What a run of a node promises of the store: on success the writes are
/// applied and their keys marked written; on failure nothing changes.
pub open spec fn run_effect(
    before: AnimationState,
    after: AnimationState,
    spec_r: Result<(Step, Map<Attribute, AttrValue>), RunError>,
) -> bool {
    &&& after.wf()
    &&& after.temporary_keys() == before.temporary_keys()
    &&& match spec_r {
        Ok((_, writes)) => {
            &&& after.values() == apply_writes(before.values(), writes)
            &&& after.changed_keys() == before.changed_keys().union(writes.dom())
        },
        Err(_) => {
            &&& after.values() == before.values()
            &&& after.changed_keys() == before.changed_keys()
        },
    }
}

fn read_or(state: &AnimationState, key: Attribute, default: u64) -> (r: Result<u64, RunError>)
    requires
        state.wf(),
    ensures
        r == u64_or(state.values(), key, default),
{
    match state.try_get_u64(key) {
        Ok(Some(v)) => Ok(v),
        Ok(None) => Ok(default),
        Err(_) => Err(RunError::AttributeTypeMismatch(key)),
    }
}

/// The frame an index node lands on: the counter plus the frames to
/// advance, wrapped when looping, otherwise held at the last frame.
pub open spec fn index_target(index: nat, advance: nat, n: nat, is_loop: bool) -> nat {
    let t = index + advance;
    if t < n {
        t
    } else if is_loop {
        t % n
    } else {
        (n - 1) as nat
    }
}

/// Shows a sequence of frames, keeping its position in a counter slot.
#[derive(Debug)]
pub struct IndexNode {
    id: Option<NodeId>,
    name: String,
    frames: Vec<String>,
    is_loop: bool,
    index: Attribute,
}

impl IndexNode {
    pub closed spec fn spec_id(&self) -> Option<NodeId> {
        self.id
    }

    pub closed spec fn spec_name(&self) -> Seq<char> {
        self.name@
    }

    /// The asset paths of the frames, in order.
    pub closed spec fn spec_frames(&self) -> Seq<Seq<char>> {
        self.frames@.map_values(|f: String| f@)
    }

    pub closed spec fn spec_is_loop(&self) -> bool {
        self.is_loop
    }

    pub closed spec fn spec_index(&self) -> Attribute {
        self.index
    }

    /// Binds `id` to the node.
    pub fn set_id(&mut self, id: NodeId)
        ensures
            final(self).spec_id() == Some(id),
            final(self).spec_name() == old(self).spec_name(),
            final(self).spec_frames() == old(self).spec_frames(),
            final(self).spec_is_loop() == old(self).spec_is_loop(),
            final(self).spec_index() == old(self).spec_index(),
    {
        self.id = Some(id);
    }

    /// A node named `name` over `frames`, counting in index slot 0.
    pub fn new(name: &str, frames: Vec<String>, is_loop: bool) -> (r: IndexNode)
        ensures
            r.spec_id().is_none(),
            r.spec_name() == name@,
            r.spec_frames() == frames@.map_values(|f: String| f@),
            r.spec_is_loop() == is_loop,
            r.spec_index() == Attribute::IndexId(0),
    {
        IndexNode::new_with_index(name, frames, is_loop, Attribute::IndexId(0))
    }

    /// A node named `name` over `frames`, counting in `index`.
    pub fn new_with_index(name: &str, frames: Vec<String>, is_loop: bool, index: Attribute) -> (r: IndexNode)
        ensures
            r.spec_id().is_none(),
            r.spec_name() == name@,
            r.spec_frames() == frames@.map_values(|f: String| f@),
            r.spec_is_loop() == is_loop,
            r.spec_index() == index,
    {
        IndexNode { id: None, name: name.to_owned(), frames, is_loop, index }
    }

    pub open spec fn spec_run(&self, values: Map<Attribute, AttrValue>) -> Result<(Step, Map<Attribute, AttrValue>), RunError> {
        match u64_or(values, self.spec_index(), 0) {
            Err(e) => Err(e),
            Ok(i) => match u64_or(values, Attribute::Frames, 0) {
                Err(e) => Err(e),
                Ok(f) => {
                    let t = index_target(i as nat, f as nat, self.spec_frames().len(), self.spec_is_loop());
                    Ok((Step::Done(t as usize), map![self.spec_index() => AttrValue::UInt(t as u64)]))
                },
            },
        }
    }

    /// Adds the frames to advance to the counter, wraps or holds it, stores
    /// it back and yields the frame there. The node must have a frame.
    pub fn run(&self, state: &mut AnimationState) -> (r: Result<NodeResult, RunError>)
        requires
            old(state).wf(),
            self.spec_frames().len() > 0,
        ensures
            run_effect(*old(state), *final(state), self.spec_run(old(state).values())),
            result_matches(r, self.spec_run(old(state).values()), self.spec_frames()),
    {
        let n = self.frames.len();
        let i = match read_or(state, self.index, 0) {
            Ok(i) => i,
            Err(e) => return Err(e),
        };
        let f = match read_or(state, Attribute::Frames, 0) {
            Ok(f) => f,
            Err(e) => return Err(e),
        };
        let t: u128 = (i as u128) + (f as u128);
        let target: usize = if t < n as u128 {
            t as usize
        } else if self.is_loop {
            (t % (n as u128)) as usize
        } else {
            n - 1
        };
        assert(self.spec_frames().len() == n);
        assert(target as nat == index_target(i as nat, f as nat, n as nat, self.is_loop));
        let ghost before = *state;
        state.set_attribute(self.index, AttrValue::UInt(target as u64));
        proof {
            let w = map![self.index => AttrValue::UInt(target as u64)];
            assert(state.values() =~= apply_writes(before.values(), w));
            assert(state.changed_keys() =~= before.changed_keys().union(w.dom()));
        }
        Ok(NodeResult::Done(target, self.frames[target].clone()))
    }
}

/// Whether a node's result is the one its specification gives.
pub open spec fn result_matches(
    r: Result<NodeResult, RunError>,
    spec_r: Result<(Step, Map<Attribute, AttrValue>), RunError>,
    frames: Seq<Seq<char>>,
) -> bool {
    match (r, spec_r) {
        (Ok(NodeResult::Next(id)), Ok((Step::Next(sid), _))) => id == sid,
        (Ok(NodeResult::Done(i, f)), Ok((Step::Done(si), _))) => i == si && i < frames.len() && f@ == frames[i as int],
        (Err(e), Err(se)) => e == se,
        _ => false,
    }
}

/// The frames that `delta` microseconds at `fps` make, with the progress
/// carried in from earlier ticks, and the progress left over.
pub open spec fn fps_advance(delta: nat, fps: nat, carry: nat) -> (nat, nat) {
    let total = delta * fps + carry;
    (total / FRAME_UNITS as nat, total % FRAME_UNITS as nat)
}

/// Turns the time elapsed in the tick into frames to advance at a fixed
/// rate, and hands control on.
#[derive(Debug)]
pub struct FpsNode {
    id: Option<NodeId>,
    name: String,
    fps: u32,
    next: NodeId,
}

impl FpsNode {
    pub closed spec fn spec_id(&self) -> Option<NodeId> {
        self.id
    }

    pub closed spec fn spec_name(&self) -> Seq<char> {
        self.name@
    }

    pub closed spec fn spec_fps(&self) -> u32 {
        self.fps
    }

    pub closed spec fn spec_next(&self) -> NodeId {
        self.next
    }

    /// Binds `id` to the node.
    pub fn set_id(&mut self, id: NodeId)
        ensures
            final(self).spec_id() == Some(id),
            final(self).spec_name() == old(self).spec_name(),
            final(self).spec_fps() == old(self).spec_fps(),
            final(self).spec_next() == old(self).spec_next(),
    {
        self.id = Some(id);
    }

    /// A node named `name` that advances `fps` frames a second and then
    /// hands control to `next`.
    pub fn new(name: &str, fps: u32, next: NodeId) -> (r: FpsNode)
        ensures
            r.spec_id().is_none(),
            r.spec_name() == name@,
            r.spec_fps() == fps,
            r.spec_next() == next,
    {
        FpsNode { id: None, name: name.to_owned(), fps, next }
    }

    pub open spec fn spec_run(&self, values: Map<Attribute, AttrValue>) -> Result<(Step, Map<Attribute, AttrValue>), RunError> {
        match u64_or(values, Attribute::Delta, 0) {
            Err(e) => Err(e),
            Ok(d) => match u64_or(values, Attribute::TimeThisFrame, 0) {
                Err(e) => Err(e),
                Ok(c) => {
                    let (frames, rest) = fps_advance(d as nat, self.spec_fps() as nat, c as nat);
                    if frames > u64::MAX {
                        Err(RunError::Overflow)
                    } else {
                        Ok((Step::Next(self.spec_next()), map![
                            Attribute::LastFps => AttrValue::UInt((self.spec_fps() * SCALE_ONE) as u64),
                            Attribute::TimeThisFrame => AttrValue::UInt(rest as u64),
                            Attribute::Frames => AttrValue::UInt(frames as u64),
                        ]))
                    }
                },
            },
        }
    }

    /// Sets the frames to advance from the elapsed time and the carried
    /// progress, carries the rest, records the rate, and hands control on.
    pub fn run(&self, state: &mut AnimationState) -> (r: Result<NodeResult, RunError>)
        requires
            old(state).wf(),
        ensures
            run_effect(*old(state), *final(state), self.spec_run(old(state).values())),
            result_matches(r, self.spec_run(old(state).values()), Seq::empty()),
    {
        let d = match read_or(state, Attribute::Delta, 0) {
            Ok(d) => d,
            Err(e) => return Err(e),
        };
        let c = match read_or(state, Attribute::TimeThisFrame, 0) {
            Ok(c) => c,
            Err(e) => return Err(e),
        };
        assert((d as int) * (self.fps as int) <= (u64::MAX as int) * (u32::MAX as int)) by (nonlinear_arith)
            requires d <= u64::MAX, self.fps <= u32::MAX;
        let total: u128 = (d as u128) * (self.fps as u128) + (c as u128);
        let frames: u128 = total / (FRAME_UNITS as u128);
        let rest: u128 = total % (FRAME_UNITS as u128);
        if frames > u64::MAX as u128 {
            return Err(RunError::Overflow);
        }
        let ghost before = *state;
        state.set_attribute(Attribute::LastFps, AttrValue::UInt((self.fps as u64) * SCALE_ONE));
        state.set_attribute(Attribute::TimeThisFrame, AttrValue::UInt(rest as u64));
        state.set_attribute(Attribute::Frames, AttrValue::UInt(frames as u64));
        proof {
            let w = map![
                Attribute::LastFps => AttrValue::UInt((self.fps * SCALE_ONE) as u64),
                Attribute::TimeThisFrame => AttrValue::UInt(rest as u64),
                Attribute::Frames => AttrValue::UInt(frames as u64),
            ];
            assert(state.values() =~= apply_writes(before.values(), w));
            assert(state.changed_keys() =~= before.changed_keys().union(w.dom()));
        }
        Ok(NodeResult::Next(self.next))
    }
}

/// The width, in millionths of a frame at the base rate, of a frame made
/// `scale` thousandths as wide.
pub open spec fn scaled_width(scale: nat) -> nat {
    scale * SCALE_ONE as nat
}

/// Pending progress (`frames` whole frames and `carry` millionths of a
/// frame at the base rate) counted in frames made `scale` thousandths as
/// wide: the whole wide frames, and what is left over, still in millionths
/// of a frame at the base rate so that the next tick adds to it directly.
pub open spec fn scale_advance(frames: nat, carry: nat, scale: nat) -> (nat, nat) {
    let progress = frames * FRAME_UNITS as nat + carry;
    (progress / scaled_width(scale), progress % scaled_width(scale))
}

/// A tick of a rate node followed by a scale node: the frames to advance
/// and the progress carried to the next tick.
pub open spec fn rate_then_scale(delta: nat, fps: nat, carry: nat, scale: nat) -> (nat, nat) {
    let (frames, rest) = fps_advance(delta, fps, carry);
    scale_advance(frames, rest, scale)
}

/// A wider frame never gives more frames: of two positive multipliers the
/// larger yields at most as many frames to advance.
pub proof fn law_scale_never_more_frames(frames: nat, carry: nat, s1: nat, s2: nat)
    requires
        0 < s1 <= s2,
    ensures
        scale_advance(frames, carry, s1).0 >= scale_advance(frames, carry, s2).0,
{
    let p = frames * FRAME_UNITS as nat + carry;
    assert(0 < s1 * 1000 <= s2 * 1000) by (nonlinear_arith)
        requires 0 < s1 <= s2;
    vstd::arithmetic::div_mod::lemma_div_is_ordered_by_denominator(p as int, (s1 * 1000) as int, (s2 * 1000) as int);
}

/// No progress is lost or made up: the wide frames times their width plus
/// what is carried is the progress that came in, and the carry is less
/// than one wide frame.
pub proof fn law_scale_conserves_progress(frames: nat, carry: nat, scale: nat)
    requires
        scale > 0,
    ensures
        ({
            let (n, rest) = scale_advance(frames, carry, scale);
            &&& rest < scaled_width(scale)
            &&& n * scaled_width(scale) + rest == frames * FRAME_UNITS as nat + carry
        }),
{
    let p = frames * FRAME_UNITS as nat + carry;
    let w = scaled_width(scale);
    assert(w > 0) by (nonlinear_arith)
        requires w == scale * 1000, scale > 0;
    vstd::arithmetic::div_mod::lemma_fundamental_div_mod(p as int, w as int);
    assert((p / w) * w == w * (p / w)) by (nonlinear_arith);
}

/// Splitting time between ticks changes nothing: two ticks of a rate node
/// followed by a scale node, at one rate and one multiplier, advance as
/// many frames as one tick with the two elapsed times together, and carry
/// the same progress on.
pub proof fn law_two_ticks_make_one(d1: nat, d2: nat, fps: nat, carry: nat, scale: nat)
    requires
        scale > 0,
    ensures
        ({
            let (n1, k1) = rate_then_scale(d1, fps, carry, scale);
            let (n2, k2) = rate_then_scale(d2, fps, k1, scale);
            let (n, k) = rate_then_scale(d1 + d2, fps, carry, scale);
            n1 + n2 == n && k2 == k
        }),
{
    let u = FRAME_UNITS as nat;
    let w = scaled_width(scale);
    assert(w > 0) by (nonlinear_arith)
        requires w == scale * 1000, scale > 0;
    // a rate node splits its total into whole frames and a carry; the scale
    // node puts them back together
    let t1 = d1 * fps + carry;
    vstd::arithmetic::div_mod::lemma_fundamental_div_mod(t1 as int, u as int);
    assert((t1 / u) * u + t1 % u == t1) by (nonlinear_arith)
        requires t1 == u * (t1 / u) + t1 % u;
    let n1 = t1 / w;
    let k1 = t1 % w;
    vstd::arithmetic::div_mod::lemma_fundamental_div_mod(t1 as int, w as int);
    let t2 = d2 * fps + k1;
    vstd::arithmetic::div_mod::lemma_fundamental_div_mod(t2 as int, u as int);
    assert((t2 / u) * u + t2 % u == t2) by (nonlinear_arith)
        requires t2 == u * (t2 / u) + t2 % u;
    let t = (d1 + d2) * fps + carry;
    vstd::arithmetic::div_mod::lemma_fundamental_div_mod(t as int, u as int);
    assert((t / u) * u + t % u == t) by (nonlinear_arith)
        requires t == u * (t / u) + t % u;
    assert(t == t2 + w * n1) by (nonlinear_arith)
        requires t == (d1 + d2) * fps + carry, t2 == d2 * fps + k1, t1 == d1 * fps + carry, t1 == w * n1 + k1;
    let q2 = t2 / w;
    let r2 = t2 % w;
    vstd::arithmetic::div_mod::lemma_fundamental_div_mod(t2 as int, w as int);
    assert(t == w * (n1 + q2) + r2) by (nonlinear_arith)
        requires t == t2 + w * n1, t2 == w * q2 + r2;
    vstd::arithmetic::div_mod::lemma_div_multiples_vanish_fancy((n1 + q2) as int, r2 as int, w as int);
    vstd::arithmetic::div_mod::lemma_mod_multiples_vanish((n1 + q2) as int, r2 as int, w as int);
    vstd::arithmetic::div_mod::lemma_small_mod(r2, w);
}

/// Widens each frame by a multiplier kept in an attribute, in thousandths
/// (a thousand where it is absent): the pending progress is counted again
/// in wider frames, the rest is carried in the same unit the rate node
/// uses, and the rate drops accordingly; then hands control on. A zero multiplier makes frames of no width and is reported
/// as an overflow.
#[derive(Debug)]
pub struct ScaleNode {
    id: Option<NodeId>,
    name: String,
    scale: Attribute,
    next: NodeId,
}

impl ScaleNode {
    pub closed spec fn spec_id(&self) -> Option<NodeId> {
        self.id
    }

    pub closed spec fn spec_name(&self) -> Seq<char> {
        self.name@
    }

    pub closed spec fn spec_scale(&self) -> Attribute {
        self.scale
    }

    pub closed spec fn spec_next(&self) -> NodeId {
        self.next
    }

    /// Binds `id` to the node.
    pub fn set_id(&mut self, id: NodeId)
        ensures
            final(self).spec_id() == Some(id),
            final(self).spec_name() == old(self).spec_name(),
            final(self).spec_scale() == old(self).spec_scale(),
            final(self).spec_next() == old(self).spec_next(),
    {
        self.id = Some(id);
    }

    /// A node named `name` that scales by the value under `scale` and then
    /// hands control to `next`.
    pub fn new(name: &str, scale: Attribute, next: NodeId) -> (r: ScaleNode)
        ensures
            r.spec_id().is_none(),
            r.spec_name() == name@,
            r.spec_scale() == scale,
            r.spec_next() == next,
    {
        ScaleNode { id: None, name: name.to_owned(), scale, next }
    }

    /// The identity bound by `set_id`, if any.
    pub fn bound_id(&self) -> (r: Option<NodeId>)
        ensures
            r == self.spec_id(),
    {
        self.id
    }

    /// The node's identity: the one bound to it, else its name's.
    pub fn id(&self) -> (r: NodeId)
        ensures
            r == match self.spec_id() {
                Some(i) => i,
                None => NodeId(name_id(self.spec_name())),
            },
    {
        match self.id {
            Some(i) => i,
            None => NodeId::of_name(self.name.as_str()),
        }
    }

    pub fn name(&self) -> (r: &str)
        ensures
            r@ == self.spec_name(),
    {
        self.name.as_str()
    }

    pub fn scale(&self) -> (r: Attribute)
        ensures
            r == self.spec_scale(),
    {
        self.scale
    }

    pub fn next(&self) -> (r: NodeId)
        ensures
            r == self.spec_next(),
    {
        self.next
    }

    /// The same as `new`.
    pub fn new_with_index(name: &str, scale: Attribute, next: NodeId) -> (r: ScaleNode)
        ensures
            r.spec_id().is_none(),
            r.spec_name() == name@,
            r.spec_scale() == scale,
            r.spec_next() == next,
    {
        ScaleNode::new(name, scale, next)
    }

    pub open spec fn spec_run(&self, values: Map<Attribute, AttrValue>) -> Result<(Step, Map<Attribute, AttrValue>), RunError> {
        match u64_or(values, Attribute::Frames, 0) {
            Err(e) => Err(e),
            Ok(f) => match u64_or(values, Attribute::TimeThisFrame, 0) {
                Err(e) => Err(e),
                Ok(c) => match u64_or(values, Attribute::LastFps, 0) {
                    Err(e) => Err(e),
                    Ok(l) => match u64_or(values, self.spec_scale(), SCALE_ONE) {
                        Err(e) => Err(e),
                        Ok(s) => {
                            let (frames, rest) = scale_advance(f as nat, c as nat, s as nat);
                            let fps = (l as nat) * SCALE_ONE as nat / (s as nat);
                            if s == 0 || frames > u64::MAX || rest > u64::MAX || fps > u64::MAX {
                                Err(RunError::Overflow)
                            } else {
                                Ok((Step::Next(self.spec_next()), map![
                                    Attribute::LastFps => AttrValue::UInt(fps as u64),
                                    Attribute::TimeThisFrame => AttrValue::UInt(rest as u64),
                                    Attribute::Frames => AttrValue::UInt(frames as u64),
                                ]))
                            }
                        },
                    },
                },
            },
        }
    }

    /// Counts the pending progress (whole frames and carried part) again in
    /// frames widened by the multiplier, carries the rest in the rate node's
    /// unit, divides the recorded rate by the multiplier, and hands control
    /// on.
    pub fn run(&self, state: &mut AnimationState) -> (r: Result<NodeResult, RunError>)
        requires
            old(state).wf(),
        ensures
            run_effect(*old(state), *final(state), self.spec_run(old(state).values())),
            result_matches(r, self.spec_run(old(state).values()), Seq::empty()),
    {
        let f = match read_or(state, Attribute::Frames, 0) {
            Ok(v) => v,
            Err(e) => return Err(e),
        };
        let c = match read_or(state, Attribute::TimeThisFrame, 0) {
            Ok(v) => v,
            Err(e) => return Err(e),
        };
        let l = match read_or(state, Attribute::LastFps, 0) {
            Ok(v) => v,
            Err(e) => return Err(e),
        };
        let s = match read_or(state, self.scale, SCALE_ONE) {
            Ok(v) => v,
            Err(e) => return Err(e),
        };
        if s == 0 {
            return Err(RunError::Overflow);
        }
        assert((f as int) * 1_000_000 <= (u64::MAX as int) * 1_000_000) by (nonlinear_arith)
            requires f <= u64::MAX;
        let progress: u128 = (f as u128) * (FRAME_UNITS as u128) + (c as u128);
        assert((l as int) * 1000 <= u128::MAX) by (nonlinear_arith)
            requires l <= u64::MAX;
        let fps: u128 = (l as u128) * (SCALE_ONE as u128) / (s as u128);
        let width: u128 = (s as u128) * (SCALE_ONE as u128);
        let frames: u128 = progress / width;
        let rest: u128 = progress % width;
        if frames > u64::MAX as u128 || rest > u64::MAX as u128 || fps > u64::MAX as u128 {
            return Err(RunError::Overflow);
        }
        let ghost before = *state;
        state.set_attribute(Attribute::LastFps, AttrValue::UInt(fps as u64));
        state.set_attribute(Attribute::TimeThisFrame, AttrValue::UInt(rest as u64));
        state.set_attribute(Attribute::Frames, AttrValue::UInt(frames as u64));
        proof {
            let w = map![
                Attribute::LastFps => AttrValue::UInt(fps as u64),
                Attribute::TimeThisFrame => AttrValue::UInt(rest as u64),
                Attribute::Frames => AttrValue::UInt(frames as u64),
            ];
            assert(state.values() =~= apply_writes(before.values(), w));
            assert(state.changed_keys() =~= before.changed_keys().union(w.dom()));
        }
        Ok(NodeResult::Next(self.next))
    }
}


/// The successor of the first branch whose value is `v`, else `default`.
pub open spec fn branch_target(branches: Seq<(AttrValue, NodeId)>, v: AttrValue, default: NodeId) -> NodeId
    decreases branches.len(),
{
    if branches.len() == 0 {
        default
    } else if branches[0].0 == v {
        branches[0].1
    } else {
        branch_target(branches.skip(1), v, default)
    }
}

/// Picks the next node by the value under an attribute.
#[derive(Debug)]
pub struct MatchNode {
    id: Option<NodeId>,
    name: String,
    check: Attribute,
    branches: Vec<(AttrValue, NodeId)>,
    default: NodeId,
}

impl MatchNode {
    pub closed spec fn spec_id(&self) -> Option<NodeId> {
        self.id
    }

    pub closed spec fn spec_name(&self) -> Seq<char> {
        self.name@
    }

    pub closed spec fn spec_check(&self) -> Attribute {
        self.check
    }

    pub closed spec fn spec_branches(&self) -> Seq<(AttrValue, NodeId)> {
        self.branches@
    }

    pub closed spec fn spec_default(&self) -> NodeId {
        self.default
    }

    /// Binds `id` to the node.
    pub fn set_id(&mut self, id: NodeId)
        ensures
            final(self).spec_id() == Some(id),
            final(self).spec_name() == old(self).spec_name(),
            final(self).spec_check() == old(self).spec_check(),
            final(self).spec_branches() == old(self).spec_branches(),
            final(self).spec_default() == old(self).spec_default(),
    {
        self.id = Some(id);
    }

    /// A node named `name` that compares the value under `check` with each
    /// branch in turn, and goes to `default` where none is equal.
    pub fn new(name: &str, check: Attribute, branches: Vec<(AttrValue, NodeId)>, default: NodeId) -> (r: MatchNode)
        ensures
            r.spec_id().is_none(),
            r.spec_name() == name@,
            r.spec_check() == check,
            r.spec_branches() == branches@,
            r.spec_default() == default,
    {
        MatchNode { id: None, name: name.to_owned(), check, branches, default }
    }

    pub open spec fn spec_run(&self, values: Map<Attribute, AttrValue>) -> Result<(Step, Map<Attribute, AttrValue>), RunError> {
        let target = if values.contains_key(self.spec_check()) {
            branch_target(self.spec_branches(), values[self.spec_check()], self.spec_default())
        } else {
            self.spec_default()
        };
        Ok((Step::Next(target), Map::empty()))
    }

    /// Hands control to the branch that the attribute's value selects.
    pub fn run(&self, state: &mut AnimationState) -> (r: Result<NodeResult, RunError>)
        requires
            old(state).wf(),
        ensures
            run_effect(*old(state), *final(state), self.spec_run(old(state).values())),
            result_matches(r, self.spec_run(old(state).values()), Seq::empty()),
    {
        let ghost before = *state;
        proof {
            assert(before.values() =~= apply_writes(before.values(), Map::empty()));
            assert(before.changed_keys() =~= before.changed_keys().union(Map::<Attribute, AttrValue>::empty().dom()));
        }
        let v = match state.try_get_attribute(self.check) {
            Some(v) => v,
            None => return Ok(NodeResult::Next(self.default)),
        };
        let mut i: usize = 0;
        assert(self.branches@.skip(0) =~= self.branches@);
        while i < self.branches.len()
            invariant
                *state == before,
                before.wf(),
                before.values().contains_key(self.check),
                v == before.values()[self.check],
                before.values() =~= apply_writes(before.values(), Map::empty()),
                before.changed_keys() =~= before.changed_keys().union(Map::<Attribute, AttrValue>::empty().dom()),
                i <= self.branches@.len(),
                branch_target(self.branches@, v, self.default) == branch_target(self.branches@.skip(i as int), v, self.default),
            decreases self.branches.len() - i,
        {
            let ghost rest = self.branches@.skip(i as int);
            assert(rest.skip(1) =~= self.branches@.skip(i + 1));
            assert(rest[0] == self.branches@[i as int]);
            if self.branches[i].0 == v {
                return Ok(NodeResult::Next(self.branches[i].1));
            }
            i = i + 1;
        }
        Ok(NodeResult::Next(self.default))
    }
}

/// An input of a script: the unsigned integer under an attribute (zero
/// where absent), or a constant.
#[derive(Debug, Clone, Copy, PartialEq, Eq, Structural)]
pub enum Operand {
    Attr(Attribute),
    Const(u64),
}

/// The operation of a script.
#[derive(Debug, Clone, Copy, PartialEq, Eq, Structural)]
pub enum ScriptOp {
    /// The sum; it must fit in 64 bits.
    Add,
    /// The difference, or zero where it would be negative.
    Sub,
    /// The product; it must fit in 64 bits.
    Mul,
    /// Whether the two are equal.
    Eq,
    /// Whether the first is smaller.
    Lt,
}

pub open spec fn operand_value(values: Map<Attribute, AttrValue>, o: Operand) -> Result<u64, RunError> {
    match o {
        Operand::Attr(a) => u64_or(values, a, 0),
        Operand::Const(c) => Ok(c),
    }
}

/// The value of `a op b`, or `None` where it does not fit.
pub open spec fn apply_op(op: ScriptOp, a: nat, b: nat) -> Option<AttrValue> {
    match op {
        ScriptOp::Add => if a + b <= u64::MAX {
            Some(AttrValue::UInt((a + b) as u64))
        } else {
            None
        },
        ScriptOp::Sub => Some(AttrValue::UInt(if a >= b { (a - b) as u64 } else { 0 })),
        ScriptOp::Mul => if a * b <= u64::MAX {
            Some(AttrValue::UInt((a * b) as u64))
        } else {
            None
        },
        ScriptOp::Eq => Some(AttrValue::Bool(a == b)),
        ScriptOp::Lt => Some(AttrValue::Bool(a < b)),
    }
}

/// Computes `left op right` from the store, writes it under `target`, and
/// hands control on; with a match node after it, it makes a condition.
#[derive(Debug)]
pub struct ScriptNode {
    id: Option<NodeId>,
    name: String,
    op: ScriptOp,
    left: Operand,
    right: Operand,
    target: Attribute,
    next: NodeId,
}

impl ScriptNode {
    pub closed spec fn spec_id(&self) -> Option<NodeId> {
        self.id
    }

    pub closed spec fn spec_name(&self) -> Seq<char> {
        self.name@
    }

    pub closed spec fn spec_expr(&self) -> (ScriptOp, Operand, Operand) {
        (self.op, self.left, self.right)
    }

    pub closed spec fn spec_target(&self) -> Attribute {
        self.target
    }

    pub closed spec fn spec_next(&self) -> NodeId {
        self.next
    }

    /// Binds `id` to the node.
    pub fn set_id(&mut self, id: NodeId)
        ensures
            final(self).spec_id() == Some(id),
            final(self).spec_name() == old(self).spec_name(),
            final(self).spec_expr() == old(self).spec_expr(),
            final(self).spec_target() == old(self).spec_target(),
            final(self).spec_next() == old(self).spec_next(),
    {
        self.id = Some(id);
    }

    /// A node named `name` that stores `left op right` under `target` and
    /// then hands control to `next`.
    pub fn new(name: &str, op: ScriptOp, left: Operand, right: Operand, target: Attribute, next: NodeId) -> (r: ScriptNode)
        ensures
            r.spec_id().is_none(),
            r.spec_name() == name@,
            r.spec_expr() == (op, left, right),
            r.spec_target() == target,
            r.spec_next() == next,
    {
        ScriptNode { id: None, name: name.to_owned(), op, left, right, target, next }
    }

    pub open spec fn spec_run(&self, values: Map<Attribute, AttrValue>) -> Result<(Step, Map<Attribute, AttrValue>), RunError> {
        match operand_value(values, self.spec_expr().1) {
            Err(e) => Err(e),
            Ok(a) => match operand_value(values, self.spec_expr().2) {
                Err(e) => Err(e),
                Ok(b) => match apply_op(self.spec_expr().0, a as nat, b as nat) {
                    None => Err(RunError::Overflow),
                    Some(v) => Ok((Step::Next(self.spec_next()), map![self.spec_target() => v])),
                },
            },
        }
    }

    fn operand(state: &AnimationState, o: Operand) -> (r: Result<u64, RunError>)
        requires
            state.wf(),
        ensures
            r == operand_value(state.values(), o),
    {
        match o {
            Operand::Attr(a) => read_or(state, a, 0),
            Operand::Const(c) => Ok(c),
        }
    }

    /// Evaluates the expression, stores the result and hands control on.
    pub fn run(&self, state: &mut AnimationState) -> (r: Result<NodeResult, RunError>)
        requires
            old(state).wf(),
        ensures
            run_effect(*old(state), *final(state), self.spec_run(old(state).values())),
            result_matches(r, self.spec_run(old(state).values()), Seq::empty()),
    {
        let a = match ScriptNode::operand(state, self.left) {
            Ok(v) => v,
            Err(e) => return Err(e),
        };
        let b = match ScriptNode::operand(state, self.right) {
            Ok(v) => v,
            Err(e) => return Err(e),
        };
        let v = match self.op {
            ScriptOp::Add => match a.checked_add(b) {
                Some(x) => AttrValue::UInt(x),
                None => return Err(RunError::Overflow),
            },
            ScriptOp::Sub => AttrValue::UInt(if a >= b { a - b } else { 0 }),
            ScriptOp::Mul => match a.checked_mul(b) {
                Some(x) => AttrValue::UInt(x),
                None => return Err(RunError::Overflow),
            },
            ScriptOp::Eq => AttrValue::Bool(a == b),
            ScriptOp::Lt => AttrValue::Bool(a < b),
        };
        let ghost before = *state;
        state.set_attribute(self.target, v);
        proof {
            let w = map![self.target => v];
            assert(state.values() =~= apply_writes(before.values(), w));
            assert(state.changed_keys() =~= before.changed_keys().union(w.dom()));
        }
        Ok(NodeResult::Next(self.next))
    }
}

/// One node of a graph, of any variant.
#[derive(Debug)]
pub enum AnimationNode {
    Index(IndexNode),
    Fps(FpsNode),
    Scale(ScaleNode),
    Match(MatchNode),
    Script(ScriptNode),
}

impl AnimationNode {
    pub open spec fn spec_name(&self) -> Seq<char> {
        match self {
            AnimationNode::Index(n) => n.spec_name(),
            AnimationNode::Fps(n) => n.spec_name(),
            AnimationNode::Scale(n) => n.spec_name(),
            AnimationNode::Match(n) => n.spec_name(),
            AnimationNode::Script(n) => n.spec_name(),
        }
    }

    pub open spec fn spec_set_id(&self) -> Option<NodeId> {
        match self {
            AnimationNode::Index(n) => n.spec_id(),
            AnimationNode::Fps(n) => n.spec_id(),
            AnimationNode::Scale(n) => n.spec_id(),
            AnimationNode::Match(n) => n.spec_id(),
            AnimationNode::Script(n) => n.spec_id(),
        }
    }

    /// The node's identity: the one bound to it, else its name's.
    pub open spec fn spec_id(&self) -> NodeId {
        match self.spec_set_id() {
            Some(id) => id,
            None => NodeId(name_id(self.spec_name())),
        }
    }

    /// The frames a node can yield: those of an index node, else none.
    pub open spec fn spec_frames(&self) -> Seq<Seq<char>> {
        match self {
            AnimationNode::Index(n) => n.spec_frames(),
            _ => Seq::empty(),
        }
    }

    /// A node is ready to run unless it is an index node without frames.
    pub open spec fn runnable(&self) -> bool {
        match self {
            AnimationNode::Index(n) => n.spec_frames().len() > 0,
            _ => true,
        }
    }

    pub open spec fn spec_run(&self, values: Map<Attribute, AttrValue>) -> Result<(Step, Map<Attribute, AttrValue>), RunError> {
        match self {
            AnimationNode::Index(n) => n.spec_run(values),
            AnimationNode::Fps(n) => n.spec_run(values),
            AnimationNode::Scale(n) => n.spec_run(values),
            AnimationNode::Match(n) => n.spec_run(values),
            AnimationNode::Script(n) => n.spec_run(values),
        }
    }

    /// Runs the node on the store.
    pub fn run(&self, state: &mut AnimationState) -> (r: Result<NodeResult, RunError>)
        requires
            old(state).wf(),
            self.runnable(),
        ensures
            run_effect(*old(state), *final(state), self.spec_run(old(state).values())),
            result_matches(r, self.spec_run(old(state).values()), self.spec_frames()),
    {
        match self {
            AnimationNode::Index(n) => n.run(state),
            AnimationNode::Fps(n) => n.run(state),
            AnimationNode::Scale(n) => n.run(state),
            AnimationNode::Match(n) => n.run(state),
            AnimationNode::Script(n) => n.run(state),
        }
    }

    /// The node's name.
    pub fn name(&self) -> (r: &str)
        ensures
            r@ == self.spec_name(),
    {
        match self {
            AnimationNode::Index(n) => n.name.as_str(),
            AnimationNode::Fps(n) => n.name.as_str(),
            AnimationNode::Scale(n) => n.name.as_str(),
            AnimationNode::Match(n) => n.name.as_str(),
            AnimationNode::Script(n) => n.name.as_str(),
        }
    }

    /// The node's identity: the one bound by `set_id`, else the one its
    /// name hashes to, which is then recorded in `registry`.
    pub fn id(&self, registry: &mut NameRegistry) -> (r: NodeId)
        requires
            old(registry).wf(),
        ensures
            r == self.spec_id(),
            final(registry).wf(),
            self.spec_set_id().is_some() ==> final(registry)@ == old(registry)@,
            self.spec_set_id().is_none() ==> final(registry)@ == if old(registry)@.contains_key(r.0) {
                old(registry)@
            } else {
                old(registry)@.insert(r.0, trim_of(self.spec_name()))
            },
    {
        let bound = match self {
            AnimationNode::Index(n) => n.id,
            AnimationNode::Fps(n) => n.id,
            AnimationNode::Scale(n) => n.id,
            AnimationNode::Match(n) => n.id,
            AnimationNode::Script(n) => n.id,
        };
        match bound {
            Some(id) => id,
            None => NodeId::from_name(self.name(), registry),
        }
    }

    /// Binds `id` to the node.
    pub fn set_id(&mut self, id: NodeId)
        ensures
            final(self).spec_set_id() == Some(id),
            final(self).spec_name() == old(self).spec_name(),
            final(self).runnable() == old(self).runnable(),
            final(self).spec_frames() == old(self).spec_frames(),
            forall|v: Map<Attribute, AttrValue>| #[trigger] final(self).spec_run(v) == old(self).spec_run(v),
    {
        match self {
            AnimationNode::Index(n) => n.set_id(id),
            AnimationNode::Fps(n) => n.set_id(id),
            AnimationNode::Scale(n) => n.set_id(id),
            AnimationNode::Match(n) => n.set_id(id),
            AnimationNode::Script(n) => n.set_id(id),
        }
    }
}

} // verus!
