//! The shared telemetry state: the last reported pose and the two
//! correlation tables, together with the transition an inbound datagram
//! applies and the claim a waiting caller makes.
use vstd::prelude::*;

use crate::codec::{decode, Decoded, Datagram};
use crate::table::Table;
use crate::{round_div, trunc_div};

verus! {

/// The last decoded pose, in raw device units plus the derived
/// metric-scaled pair. The metric pair is swapped on purpose: the scaled
/// y coordinate comes first, the scaled x coordinate second.
#[derive(Clone, Copy, PartialEq, Eq, Structural, Debug)]
pub struct Pose {
    pub pos_x: i32,
    pub pos_y: i32,
    pub pos_m_first: i32,
    pub pos_m_second: i32,
    pub pos_direction: i32,
}

/// Device units: the raw coordinate divided by 64, truncated toward zero.
pub open spec fn scale_pos(v: int) -> int {
    trunc_div(v, 64)
}

/// Metric scaling of a device-unit coordinate: `units * 1.35 / 1000`,
/// rounded to the nearest integer; an exact half rounds away from zero.
pub open spec fn metric_of(units: int) -> int {
    round_div(units * 135, 100000)
}

/// The pose a well-formed `pos,x,y,dir` report stores.
pub open spec fn pose_from(x: int, y: int, dir: int) -> Pose {
    Pose {
        pos_x: scale_pos(x) as i32,
        pos_y: scale_pos(y) as i32,
        pos_m_first: metric_of(scale_pos(y)) as i32,
        pos_m_second: metric_of(scale_pos(x)) as i32,
        pos_direction: dir as i32,
    }
}

/// The mathematical model of the telemetry state.
#[verifier::ext_equal]
pub struct StateModel {
    pub pose: Pose,
    pub pending: Map<Seq<u8>, Seq<u8>>,
    pub results: Map<Seq<u8>, Seq<u8>>,
}

/// What one decoded datagram does to the state: a reply claims the pending
/// identifier and files its payload; a pose report overwrites the pose;
/// noise changes nothing.
pub open spec fn apply_decoded(m: StateModel, d: Decoded) -> StateModel {
    match d {
        Decoded::Reply { id, payload } => StateModel {
            pose: m.pose,
            pending: m.pending.remove(id),
            results: m.results.insert(id, payload),
        },
        Decoded::Position { x, y, dir } => StateModel {
            pose: pose_from(x, y, dir),
            pending: m.pending,
            results: m.results,
        },
        Decoded::Ignored => m,
    }
}

/// Claiming a result: if a payload is filed under `id` it is handed out
/// and removed; otherwise nothing changes.
pub open spec fn claim_from(m: StateModel, id: Seq<u8>) -> (StateModel, Option<Seq<u8>>) {
    if m.results.contains_key(id) {
        (
            StateModel { pose: m.pose, pending: m.pending, results: m.results.remove(id) },
            Some(m.results[id]),
        )
    } else {
        (m, None)
    }
}

/// The telemetry state: pose, pending identifiers awaiting a reply, and
/// replies that arrived but have not been claimed yet.
pub struct RobotState {
    pub pose: Pose,
    pub pending: Table,
    pub results: Table,
}

impl RobotState {
    pub open spec fn wf(self) -> bool {
        self.pending.wf() && self.results.wf()
    }

    pub open spec fn model(self) -> StateModel {
        StateModel { pose: self.pose, pending: self.pending@, results: self.results@ }
    }

    /// A fresh state: a zero pose and no correlation entries.
    pub fn new() -> (s: RobotState)
        ensures
            s.wf(),
            s.pose == (Pose {
                pos_x: 0,
                pos_y: 0,
                pos_m_first: 0,
                pos_m_second: 0,
                pos_direction: 0,
            }),
            s.model().pending =~= Map::<Seq<u8>, Seq<u8>>::empty(),
            s.model().results =~= Map::<Seq<u8>, Seq<u8>>::empty(),
    {
        let s = RobotState {
            pose: Pose { pos_x: 0, pos_y: 0, pos_m_first: 0, pos_m_second: 0, pos_direction: 0 },
            pending: Table::new(),
            results: Table::new(),
        };
        proof {
            assert(s.pending@ =~= Map::<Seq<u8>, Seq<u8>>::empty());
            assert(s.results@ =~= Map::<Seq<u8>, Seq<u8>>::empty());
        }
        s
    }

    /// Apply one inbound datagram to the state.
    pub fn apply_datagram(&mut self, data: &[u8])
        requires
            old(self).wf(),
        ensures
            final(self).wf(),
            final(self).model() == apply_decoded(old(self).model(), decode(data@)),
    {
        let d = crate::codec::decode_datagram(data);
        match d {
            Datagram::Reply { id, payload } => {
                let ghost gid = id@;
                let ghost gpayload = payload@;
                let _ = self.pending.remove(&id);
                self.results.insert(id, payload);
                proof {
                    assert(self.pending@ =~= old(self).pending@.remove(gid));
                    assert(self.results@ =~= old(self).results@.insert(gid, gpayload));
                    assert(self.model() =~= apply_decoded(old(self).model(), decode(data@)));
                }
            },
            Datagram::Position { x, y, dir } => {
                self.pose = decoded_pose(x, y, dir);
                proof {
                    assert(self.model() =~= apply_decoded(old(self).model(), decode(data@)));
                }
            },
            Datagram::Ignored => {
                proof {
                    assert(self.model() =~= apply_decoded(old(self).model(), decode(data@)));
                }
            },
        }
    }

    /// Claim the reply filed under `id`, if one is there.
    pub fn claim_result(&mut self, id: &[u8]) -> (r: Option<Vec<u8>>)
        requires
            old(self).wf(),
        ensures
            final(self).wf(),
            final(self).model() == claim_from(old(self).model(), id@).0,
            match r {
                Some(v) => claim_from(old(self).model(), id@).1 == Some(v@),
                None => claim_from(old(self).model(), id@).1 is None,
            },
    {
        let r = self.results.remove(id);
        proof {
            if old(self).results.spec_contains(id@) {
                assert(self.results@ =~= old(self).results@.remove(id@));
                assert(self.model() =~= claim_from(old(self).model(), id@).0);
            } else {
                assert(self.results@ =~= old(self).results@);
                assert(self.model() =~= claim_from(old(self).model(), id@).0);
            }
        }
        r
    }
}

/// Compute the pose a well-formed report stores.
fn decoded_pose(x: i32, y: i32, dir: i32) -> (p: Pose)
    ensures
        p == pose_from(x as int, y as int, dir as int),
{
    let xu = div_by_64(x);
    let yu = div_by_64(y);
    Pose {
        pos_x: xu,
        pos_y: yu,
        pos_m_first: metric_scaled(yu),
        pos_m_second: metric_scaled(xu),
        pos_direction: dir,
    }
}

/// Divide a raw coordinate by 64, truncating toward zero.
fn div_by_64(v: i32) -> (r: i32)
    ensures
        r as int == scale_pos(v as int),
        -0x2000000 <= r <= 0x2000000,
{
    let w = v as i64;
    let q = w.checked_div(64).unwrap();
    proof {
        if v >= 0 {
            assert(q == v as int / 64);
            assert(v as int / 64 <= v as int) by {
                vstd::arithmetic::div_mod::lemma_div_nonincreasing(v as int, 64);
            }
            assert(v as int / 64 >= 0) by {
                vstd::arithmetic::div_mod::lemma_div_pos_is_pos(v as int, 64);
            }
        } else {
            assert(q == -((-(v as int)) / 64));
            assert((-(v as int)) / 64 <= -(v as int)) by {
                vstd::arithmetic::div_mod::lemma_div_nonincreasing(-(v as int), 64);
            }
            assert((-(v as int)) / 64 >= 0) by {
                vstd::arithmetic::div_mod::lemma_div_pos_is_pos(-(v as int), 64);
            }
        }
    }
    q as i32
}

/// Metric scaling of a device-unit coordinate: multiply by 135, divide by
/// 100000, rounding to nearest with halves away from zero.
fn metric_scaled(units: i32) -> (r: i32)
    requires
        -0x2000000 <= units <= 0x2000000,
    ensures
        r as int == metric_of(units as int),
{
    let prod = (units as i64) * 135;
    let q: i64 = if prod >= 0 {
        (prod + 50000).checked_div(100000).unwrap()
    } else {
        -((-prod + 50000).checked_div(100000).unwrap())
    };
    proof {
        let p = units as int * 135;
        assert(100000int / 2 == 50000);
        if p >= 0 {
            assert(q == (p + 50000) / 100000);
            assert((p + 50000) / 100000 <= p + 50000) by {
                vstd::arithmetic::div_mod::lemma_div_nonincreasing(p + 50000, 100000);
            }
            assert((p + 50000) / 100000 >= 0) by {
                vstd::arithmetic::div_mod::lemma_div_pos_is_pos(p + 50000, 100000);
            }
        } else {
            assert(q == -((-p + 50000) / 100000));
            assert((-p + 50000) / 100000 <= -p + 50000) by {
                vstd::arithmetic::div_mod::lemma_div_nonincreasing(-p + 50000, 100000);
            }
            assert((-p + 50000) / 100000 >= 0) by {
                vstd::arithmetic::div_mod::lemma_div_pos_is_pos(-p + 50000, 100000);
            }
        }
    }
    q as i32
}

/// Does `d` carry the reply for `id`?
pub open spec fn reply_for(d: Decoded, id: Seq<u8>) -> bool {
    match d {
        Decoded::Reply { id: rid, payload } => rid == id,
        _ => false,
    }
}

/// A datagram of any other shape leaves the whole state untouched.
pub proof fn lemma_ignored_preserves_state(m: StateModel, data: Seq<u8>)
    requires
        decode(data) is Ignored,
    ensures
        apply_decoded(m, decode(data)) == m,
{
}

/// A pending identifier survives every datagram except the reply that
/// matches it, and keeps its command name.
pub proof fn lemma_pending_removed_only_by_matching_reply(
    m: StateModel,
    data: Seq<u8>,
    id: Seq<u8>,
)
    requires
        m.pending.contains_key(id),
        !reply_for(decode(data), id),
    ensures
        apply_decoded(m, decode(data)).pending.contains_key(id),
        apply_decoded(m, decode(data)).pending[id] == m.pending[id],
{
}

/// A filed payload is handed out at most once: whatever the first claim
/// returned, a second claim of the same identifier returns nothing.
pub proof fn lemma_claim_exactly_once(m: StateModel, id: Seq<u8>)
    ensures
        claim_from(claim_from(m, id).0, id).1 is None,
{
}

/// Running a whole sequence of inbound datagrams through the state.
pub open spec fn apply_all(m: StateModel, datas: Seq<Seq<u8>>) -> StateModel
    decreases datas.len(),
{
    if datas.len() == 0 {
        m
    } else {
        apply_all(apply_decoded(m, decode(datas[0])), datas.drop_first())
    }
}

/// If no datagram in a run is the matching reply, no claimable result for
/// `id` ever appears: a wait that times out finds nothing to claim.
pub proof fn lemma_no_reply_no_result(m: StateModel, datas: Seq<Seq<u8>>, id: Seq<u8>)
    requires
        !m.results.contains_key(id),
        forall|i: int| 0 <= i < datas.len() ==> !reply_for(decode(#[trigger] datas[i]), id),
    ensures
        !apply_all(m, datas).results.contains_key(id),
    decreases datas.len(),
{
    if datas.len() > 0 {
        let m1 = apply_decoded(m, decode(datas[0]));
        assert(!reply_for(decode(datas[0]), id));
        assert(!m1.results.contains_key(id));
        assert(forall|i: int|
            0 <= i < datas.drop_first().len() ==> !reply_for(
                decode(#[trigger] datas.drop_first()[i]),
                id,
            ));
        lemma_no_reply_no_result(m1, datas.drop_first(), id);
    }
}

/// A well-formed pose report stores the truncated device units and the
/// swapped, rounded metric pair.
pub proof fn lemma_pose_report_fields(m: StateModel, data: Seq<u8>, x: int, y: int, dir: int)
    requires
        decode(data) == (Decoded::Position { x, y, dir }),
        i32::MIN <= x <= i32::MAX,
        i32::MIN <= y <= i32::MAX,
        i32::MIN <= dir <= i32::MAX,
    ensures
        ({
            let p = apply_decoded(m, decode(data)).pose;
            &&& p.pos_x == trunc_div(x, 64)
            &&& p.pos_y == trunc_div(y, 64)
            &&& p.pos_m_first == round_div(trunc_div(y, 64) * 135, 100000)
            &&& p.pos_m_second == round_div(trunc_div(x, 64) * 135, 100000)
            &&& p.pos_direction == dir
        }),
{
    lemma_trunc_div_small(x, 64);
    lemma_trunc_div_small(y, 64);
    lemma_round_div_small(trunc_div(x, 64) * 135, 100000);
    lemma_round_div_small(trunc_div(y, 64) * 135, 100000);
    assert(-0x2000000 <= trunc_div(x, 64) <= 0x2000000);
    assert(-0x2000000 <= trunc_div(y, 64) <= 0x2000000);
}

/// Truncating division by a positive divisor shrinks the magnitude.
pub proof fn lemma_trunc_div_small(a: int, b: int)
    requires
        b >= 1,
    ensures
        a >= 0 ==> 0 <= trunc_div(a, b) <= a,
        a < 0 ==> a <= trunc_div(a, b) <= 0,
{
    if a >= 0 {
        vstd::arithmetic::div_mod::lemma_div_nonincreasing(a, b);
        vstd::arithmetic::div_mod::lemma_div_pos_is_pos(a, b);
    } else {
        vstd::arithmetic::div_mod::lemma_div_nonincreasing(-a, b);
        vstd::arithmetic::div_mod::lemma_div_pos_is_pos(-a, b);
    }
}

/// Rounding division by a positive divisor grows the magnitude by at most
/// half the divisor's worth.
pub proof fn lemma_round_div_small(a: int, b: int)
    requires
        b >= 1,
    ensures
        a >= 0 ==> 0 <= round_div(a, b) <= a + b / 2,
        a < 0 ==> -(-a + b / 2) <= round_div(a, b) <= 0,
{
    if a >= 0 {
        vstd::arithmetic::div_mod::lemma_div_nonincreasing(a + b / 2, b);
        vstd::arithmetic::div_mod::lemma_div_pos_is_pos(a + b / 2, b);
    } else {
        vstd::arithmetic::div_mod::lemma_div_nonincreasing(-a + b / 2, b);
        vstd::arithmetic::div_mod::lemma_div_pos_is_pos(-a + b / 2, b);
    }
}

} // verus!
