//! The engine: dispatching commands with fresh correlation identifiers,
//! polling for correlated replies, and deriving the peer address of the
//! robot. The caller around the engine owns the sockets, the clock and the
//! receive loop; the engine owns every decision.
use vstd::prelude::*;

use vstd::string::StringSliceAdditionalSpecFns;

use crate::codec::{encode_message, views_of};
use crate::state::{claim_from, apply_decoded, RobotState, StateModel, Pose};
use crate::parse::dec_digits;

verus! {

pub const BYTE_DOT: u8 = 0x2e;

/// A lowercase hexadecimal digit byte.
pub open spec fn is_lower_hex(b: u8) -> bool {
    (0x30 <= b <= 0x39) || (0x61 <= b <= 0x66)
}

/// Relies on `uuid::Uuid::new_v4` and its `Display` rendering: 36 bytes of
/// lowercase hyphenated hexadecimal, with hyphens exactly at offsets 8, 13,
/// 18 and 23. Nothing is assumed about which digits come out.
#[verifier::external_body]
fn uuid_v4_hyphenated() -> (r: Vec<u8>)
    ensures
        r@.len() == 36,
        forall|i: int|
            0 <= i < 36 ==> if i == 8 || i == 13 || i == 18 || i == 23 {
                r@[i] == 0x2d
            } else {
                is_lower_hex(#[trigger] r@[i])
            },
{
    uuid::Uuid::new_v4().to_string().into_bytes()
}

/// Draw a fresh correlation identifier: the first six bytes of a random
/// hyphenated UUID, so six lowercase hexadecimal digits.
pub fn fresh_correlation_id() -> (r: Vec<u8>)
    ensures
        r@.len() == 6,
        forall|i: int| 0 <= i < 6 ==> is_lower_hex(#[trigger] r@[i]),
{
    let mut v = uuid_v4_hyphenated();
    v.truncate(6);
    v
}

/// One dispatched command: the composed wire message, the correlation
/// identifier embedded in it, whether a reply is expected, and the wait
/// budget in milliseconds granted to the caller.
pub struct Dispatch {
    pub message: Vec<u8>,
    pub id: Vec<u8>,
    pub expects_reply: bool,
    pub timeout_ms: u64,
}

/// The outcome of one poll of a waiting caller.
pub enum WaitOutcome {
    /// The matching reply arrived; its payload, claimed.
    Claimed(Vec<u8>),
    /// The wait budget is spent: no result.
    TimedOut,
    /// Nothing yet; poll again after a short sleep.
    KeepWaiting,
}

/// What a dispatch guarantees: the message is the exact encoding of the
/// command, and the identifier is registered as pending exactly when a
/// reply is expected.
pub open spec fn dispatched(
    pre: CoCube,
    post: CoCube,
    d: Dispatch,
    func: Seq<u8>,
    ps: Seq<Seq<u8>>,
    expects_reply: bool,
) -> bool {
    &&& post.wf()
    &&& post.robot_id == pre.robot_id
    &&& d.message@ == encode_message(expects_reply, d.id@, func, ps)
    &&& d.id@.len() == 6
    &&& (forall|i: int| 0 <= i < 6 ==> is_lower_hex(#[trigger] d.id@[i]))
    &&& d.expects_reply == expects_reply
    &&& expects_reply ==> post.model() == (StateModel {
        pose: pre.model().pose,
        pending: pre.model().pending.insert(d.id@, func),
        results: pre.model().results,
    })
    &&& !expects_reply ==> post.model() == pre.model()
}

/// The engine for one robot: its numeric identifier and the shared
/// telemetry state.
pub struct CoCube {
    pub robot_id: u32,
    pub state: RobotState,
}

impl CoCube {
    pub open spec fn wf(self) -> bool {
        self.state.wf()
    }

    pub open spec fn model(self) -> StateModel {
        self.state.model()
    }

    /// A fresh engine: zero pose, no pending calls, no unclaimed results.
    pub fn new(robot_id: u32) -> (c: CoCube)
        ensures
            c.wf(),
            c.robot_id == robot_id,
            c.model().pose == (Pose {
                pos_x: 0,
                pos_y: 0,
                pos_m_first: 0,
                pos_m_second: 0,
                pos_direction: 0,
            }),
            c.model().pending =~= Map::<Seq<u8>, Seq<u8>>::empty(),
            c.model().results =~= Map::<Seq<u8>, Seq<u8>>::empty(),
    {
        CoCube { robot_id, state: RobotState::new() }
    }

    /// The latest pose snapshot: x and y in device units, then the
    /// direction, exactly as last reported.
    pub fn get_position(&self) -> (p: [i32; 3])
        ensures
            p@.len() == 3,
            p@[0] == self.model().pose.pos_x,
            p@[1] == self.model().pose.pos_y,
            p@[2] == self.model().pose.pos_direction,
    {
        [self.state.pose.pos_x, self.state.pose.pos_y, self.state.pose.pos_direction]
    }

    /// Apply one inbound datagram to the telemetry state.
    pub fn apply_datagram(&mut self, data: &[u8])
        requires
            old(self).wf(),
        ensures
            final(self).wf(),
            final(self).robot_id == old(self).robot_id,
            final(self).model() == apply_decoded(old(self).model(), crate::codec::decode(data@)),
    {
        self.state.apply_datagram(data);
    }

    /// The command name registered as pending under `id`, if any.
    pub fn pending_command(&self, id: &[u8]) -> (r: Option<Vec<u8>>)
        ensures
            match r {
                Some(v) => self.model().pending.contains_key(id@) && self.model().pending[id@]
                    == v@,
                None => !self.model().pending.contains_key(id@),
            },
    {
        match self.state.pending.get(id) {
            Some(v) => Some(vstd::slice::slice_to_vec(v.as_slice())),
            None => None,
        }
    }

    /// Build and register one command dispatch: draw a fresh identifier,
    /// compose the wire message, and, when a reply is expected, file the
    /// identifier as pending before anything is sent.
    pub fn process_data(
        &mut self,
        func: &[u8],
        params: &Vec<Vec<u8>>,
        if_return_uuid: bool,
        timeout_ms: u64,
    ) -> (d: Dispatch)
        requires
            old(self).wf(),
        ensures
            dispatched(*old(self), *final(self), d, func@, views_of(params@), if_return_uuid),
            d.timeout_ms == timeout_ms,
    {
        let id = fresh_correlation_id();
        let message = crate::codec::encode_message_exec(if_return_uuid, id.as_slice(), func, params);
        if if_return_uuid {
            let id_key = vstd::slice::slice_to_vec(id.as_slice());
            let func_name = vstd::slice::slice_to_vec(func);
            self.state.pending.insert(id_key, func_name);
            proof {
                assert(self.state.pending@ =~= old(self).state.pending@.insert(id@, func@));
                assert(self.model() =~= (StateModel {
                    pose: old(self).model().pose,
                    pending: old(self).model().pending.insert(id@, func@),
                    results: old(self).model().results,
                }));
            }
        }
        Dispatch { message, id, expects_reply: if_return_uuid, timeout_ms }
    }

    /// One poll of a waiting caller. The caller decides `expired` from its
    /// deadline; the engine claims the result if one is filed. A spent
    /// budget wins over a filed result, and nothing is claimed then.
    pub fn wait_poll(&mut self, id: &[u8], expired: bool) -> (w: WaitOutcome)
        requires
            old(self).wf(),
        ensures
            final(self).wf(),
            final(self).robot_id == old(self).robot_id,
            expired ==> w is TimedOut && final(self).model() == old(self).model(),
            !expired ==> final(self).model() == claim_from(old(self).model(), id@).0,
            !expired ==> match w {
                WaitOutcome::Claimed(v) => claim_from(old(self).model(), id@).1 == Some(v@),
                WaitOutcome::KeepWaiting => claim_from(old(self).model(), id@).1 is None,
                WaitOutcome::TimedOut => false,
            },
    {
        if expired {
            return WaitOutcome::TimedOut;
        }
        match self.state.claim_result(id) {
            Some(v) => WaitOutcome::Claimed(v),
            None => WaitOutcome::KeepWaiting,
        }
    }
}

/// The first three dot-separated segments of `s`, joined with dots again:
/// everything before the third dot, or all of `s` when it has fewer than
/// three dots. `k` is how many segments may still be taken.
pub open spec fn seg_prefix(s: Seq<u8>, k: int) -> Seq<u8>
    decreases s.len(),
{
    if s.len() == 0 {
        s
    } else if s[0] == BYTE_DOT {
        if k <= 1 {
            Seq::empty()
        } else {
            seq![BYTE_DOT] + seg_prefix(s.drop_first(), k - 1)
        }
    } else {
        seq![s[0]] + seg_prefix(s.drop_first(), k)
    }
}

/// The peer address bytes: the gateway's first three octets, then a dot,
/// then `ip_prefix + robot_id` in decimal.
pub open spec fn peer_ip_bytes(gateway: Seq<u8>, last_octet: nat) -> Seq<u8> {
    seg_prefix(gateway, 3) + seq![BYTE_DOT] + dec_digits(last_octet)
}

/// Derive the robot's IP address from the gateway address: keep the first
/// three dot-separated octets and append `ip_prefix + robot_id` as the
/// fourth.
pub fn peer_ip(gateway: &str, ip_prefix: u32, robot_id: u32) -> (r: Vec<u8>)
    requires
        ip_prefix + robot_id <= u32::MAX,
    ensures
        r@ == peer_ip_bytes(gateway.spec_bytes(), (ip_prefix + robot_id) as nat),
{
    let s = gateway.as_bytes();
    let n = s.len();
    let mut out: Vec<u8> = Vec::new();
    let mut i: usize = 0;
    let mut k: u32 = 3;
    assert(s@.subrange(0, n as int) =~= s@);
    while i < n
        invariant_except_break
            0 <= i <= n,
            n == s@.len(),
            1 <= k <= 3,
            seg_prefix(s@, 3) =~= out@ + seg_prefix(s@.subrange(i as int, n as int), k as int),
        ensures
            out@ =~= seg_prefix(s@, 3),
        decreases n - i,
    {
        let ghost suf = s@.subrange(i as int, n as int);
        let b = s[i];
        if b == BYTE_DOT {
            if k == 1 {
                proof {
                    assert(seg_prefix(suf, 1) =~= Seq::<u8>::empty());
                }
                break ;
            }
            out.push(BYTE_DOT);
            k = k - 1;
            proof {
                assert(suf.drop_first() =~= s@.subrange(i + 1, n as int));
                assert(seg_prefix(suf, k + 1) =~= seq![BYTE_DOT] + seg_prefix(
                    suf.drop_first(),
                    k as int,
                ));
            }
        } else {
            out.push(b);
            proof {
                assert(suf.drop_first() =~= s@.subrange(i + 1, n as int));
                assert(seg_prefix(suf, k as int) =~= seq![b] + seg_prefix(
                    suf.drop_first(),
                    k as int,
                ));
            }
        }
        i = i + 1;
        if i == n {
            proof {
                assert(s@.subrange(n as int, n as int) =~= Seq::<u8>::empty());
                assert(seg_prefix(Seq::<u8>::empty(), k as int) =~= Seq::<u8>::empty());
            }
            break ;
        }
    }
    out.push(BYTE_DOT);
    let octet = crate::parse::fmt_u64((ip_prefix + robot_id) as u64);
    crate::codec::extend_bytes(&mut out, octet.as_slice());
    assert(out@ =~= peer_ip_bytes(gateway.spec_bytes(), (ip_prefix + robot_id) as nat));
    out
}

/// The robot's datagram port, shared by the peer and the local listener:
/// the base port plus the robot's numeric identifier.
pub fn derive_port(udp_port: u16, robot_id: u32) -> (p: u16)
    requires
        udp_port + robot_id <= u16::MAX,
    ensures
        p == udp_port + robot_id,
{
    udp_port + (robot_id as u16)
}

} // verus!
