//! Peer addresses, the transport capability, and the decisions of connection
//! establishment.

use vstd::prelude::*;
use vstd::string::{StrSliceExecFns, StringExecFns};
use core::num::ParseIntError;
use crate::error::TransportError;
use crate::wire::{Handshake, StreamRole};

verus! {

#[verifier::external_type_specification]
#[verifier::external_body]
pub struct ExParseIntError(ParseIntError);

/// A peer's network address.
#[derive(Debug, Clone, PartialEq, Eq, PartialOrd, Ord, Hash)]
pub struct Address {
    /// The hostname of the address, resolved through DNS.
    pub hostname: String,
    /// The port of the address.
    pub port: u16,
}

/// Why a text is no address.
#[derive(Debug, PartialEq, Eq)]
pub enum ParseAddressError {
    /// The text is not of the form `hostname:port`.
    InvalidFormat,
    /// The part after the colon is no port number.
    InvalidPort(ParseIntError),
}

pub open spec fn is_digit(c: char) -> bool {
    '0' <= c && c <= '9'
}

pub open spec fn digit_value(c: char) -> nat {
    ((c as u32) - ('0' as u32)) as nat
}

/// The number that a run of decimal digits spells.
pub open spec fn digits_value(d: Seq<char>) -> nat
    decreases d.len(),
{
    if d.len() == 0 {
        0
    } else {
        digits_value(d.drop_last()) * 10 + digit_value(d.last())
    }
}

/// The port that a text names: an optional `+`, then one or more ASCII
/// digits, whose value is at most 65535.
pub open spec fn port_value(s: Seq<char>) -> Option<u16> {
    let d = if s.len() > 0 && s[0] == '+' {
        s.skip(1)
    } else {
        s
    };
    if d.len() > 0 && (forall|i: int| 0 <= i < d.len() ==> is_digit(#[trigger] d[i]))
        && digits_value(d) <= 65535 {
        Some(digits_value(d) as u16)
    } else {
        None
    }
}

/// How many colons `s` holds.
pub open spec fn colon_count(s: Seq<char>) -> nat
    decreases s.len(),
{
    if s.len() == 0 {
        0
    } else {
        colon_count(s.drop_last()) + if s.last() == ':' {
            1nat
        } else {
            0nat
        }
    }
}

/// `p` is the position of the first colon of `s`.
pub open spec fn first_colon_at(s: Seq<char>, p: int) -> bool {
    0 <= p < s.len() && s[p] == ':' && colon_count(s.take(p)) == 0
}

/// What parsing `s`, whose one colon stands at `p`, gives.
pub open spec fn parse_reports(s: Seq<char>, p: int, r: Result<Address, ParseAddressError>) -> bool {
    match port_value(s.skip(p + 1)) {
        Some(port) => r is Ok && r->Ok_0.hostname@ == s.take(p) && r->Ok_0.port == port,
        None => r is Err && r->Err_0 is InvalidPort,
    }
}

/// The decimal text of `n`: its digits, without sign or leading zero.
pub open spec fn decimal_text(n: nat) -> Seq<char>
    decreases n,
{
    if n < 10 {
        seq![(('0' as u32) + n) as char]
    } else {
        decimal_text(n / 10).push((('0' as u32) + n % 10) as char)
    }
}

/// Relies on std's `u16::from_str`: an optional `+` and decimal digits of a
/// value that fits, and an error for anything else.
#[verifier::external_body]
fn parse_u16(s: &str) -> (r: Result<u16, ParseIntError>)
    ensures
        (r is Ok) == (port_value(s@) is Some),
        (r is Ok) ==> r->Ok_0 == port_value(s@)->0,
{
    s.parse::<u16>()
}

/// Relies on std's `Display` for `u16`: its decimal text.
#[verifier::external_body]
fn u16_text(n: u16) -> (r: String)
    ensures
        r@ == decimal_text(n as nat),
{
    format!("{}", n)
}

impl Address {
    /// The address `hostname:port`.
    pub fn new(hostname: String, port: u16) -> (r: Self)
        ensures
            r.hostname@ == hostname@,
            r.port == port,
    {
        Address { hostname, port }
    }

    /// Reads `hostname:port`. The text must hold exactly one colon; the part
    /// before it is the hostname, and the part after it a port number.
    pub fn parse(s: &str) -> (r: Result<Address, ParseAddressError>)
        ensures
            colon_count(s@) != 1 ==> r == Err::<Address, ParseAddressError>(
                ParseAddressError::InvalidFormat,
            ),
            colon_count(s@) == 1 ==> exists|p: int| #[trigger]
                first_colon_at(s@, p) && parse_reports(s@, p, r),
    {
        let n = s.unicode_len();
        let mut i: usize = 0;
        let mut count: usize = 0;
        let mut pos: usize = 0;
        while i < n
            invariant
                n == s@.len(),
                i <= n,
                count == colon_count(s@.take(i as int)),
                count <= i,
                count >= 1 ==> first_colon_at(s@, pos as int) && pos < i,
            decreases n - i,
        {
            assert(s@.take(i as int + 1).drop_last() =~= s@.take(i as int));
            if s.get_char(i) == ':' {
                if count == 0 {
                    pos = i;
                }
                count = count + 1;
            }
            i = i + 1;
        }
        assert(s@.take(n as int) =~= s@);
        if count != 1 {
            return Err(ParseAddressError::InvalidFormat);
        }
        let hostname = s.substring_char(0, pos).to_owned();
        let port_part = s.substring_char(pos + 1, n);
        assert(port_part@ =~= s@.skip(pos as int + 1));
        assert(hostname@ =~= s@.take(pos as int));
        let r = match parse_u16(port_part) {
            Ok(port) => Ok(Address { hostname, port }),
            Err(e) => Err(ParseAddressError::InvalidPort(e)),
        };
        assert(first_colon_at(s@, pos as int) && parse_reports(s@, pos as int, r));
        r
    }

    /// The address as `hostname:port`.
    pub fn to_text(&self) -> (r: String)
        ensures
            r@ == self.hostname@ + seq![':'] + decimal_text(self.port as nat),
    {
        let mut r = self.hostname.clone();
        proof {
            reveal_strlit(":");
        }
        r.append(":");
        let port = u16_text(self.port);
        r.append(port.as_str());
        r
    }
}

/// The capability of one lane: identify itself, send bytes to a peer, receive
/// bytes from a peer. Each peer and direction is independent of the others.
pub trait Network: Send + Sync {
    /// This party's id.
    fn id(&self) -> usize;

    /// Sends `data` to party `to` as one message.
    fn send(&self, to: usize, data: &[u8]) -> Result<(), TransportError>;

    /// Receives the next message from party `from`.
    fn recv(&self, from: usize) -> Result<Vec<u8>, TransportError>;
}

/// A transport that talks to nobody: sends succeed and do nothing, receives
/// return an empty message at once.
#[derive(Debug, Clone, Copy)]
pub struct DummyNetwork;

impl DummyNetwork {
    /// `num` lanes of the stub transport.
    pub fn networks(num: usize) -> (r: Vec<Self>)
        ensures
            r@.len() == num,
    {
        let mut r: Vec<DummyNetwork> = Vec::new();
        let mut i: usize = 0;
        while i < num
            invariant
                i <= num,
                r@.len() == i,
            decreases num - i,
        {
            r.push(DummyNetwork);
            i = i + 1;
        }
        r
    }
}

impl Network for DummyNetwork {
    fn id(&self) -> (r: usize)
        ensures
            r == 0,
    {
        0
    }

    fn send(&self, to: usize, data: &[u8]) -> (r: Result<(), TransportError>)
        ensures
            r == Ok::<(), TransportError>(()),
    {
        Ok(())
    }

    fn recv(&self, from: usize) -> (r: Result<Vec<u8>, TransportError>)
        ensures
            r is Ok && r->Ok_0@.len() == 0,
    {
        Ok(Vec::new())
    }
}

/// How a party takes part in the connection to one peer.
#[derive(Debug, Clone, Copy, PartialEq, Eq, Structural)]
pub enum LinkRole {
    /// It dials the peer.
    Connect,
    /// It accepts the peer's call.
    Accept,
}

/// The lower id dials, the higher id accepts, and a party has no link to
/// itself; so exactly one side of each pair dials.
pub open spec fn link_role_of(self_id: nat, other_id: nat) -> Option<LinkRole> {
    if self_id < other_id {
        Some(LinkRole::Connect)
    } else if self_id > other_id {
        Some(LinkRole::Accept)
    } else {
        None
    }
}

/// This party's part in the connection to `other_id`.
pub fn link_role(self_id: usize, other_id: usize) -> (r: Option<LinkRole>)
    ensures
        r == link_role_of(self_id as nat, other_id as nat),
{
    if self_id < other_id {
        Some(LinkRole::Connect)
    } else if self_id > other_id {
        Some(LinkRole::Accept)
    } else {
        None
    }
}

/// Of two distinct parties, exactly one dials the other.
pub proof fn lemma_one_side_dials(a: nat, b: nat)
    requires
        a != b,
    ensures
        link_role_of(a, b) == Some(LinkRole::Connect) <==> link_role_of(b, a) == Some(
            LinkRole::Accept,
        ),
        link_role_of(a, b) is Some,
{
}

/// Which of a lane's per-peer channels a connection fills.
#[derive(Debug, Clone, Copy, PartialEq, Eq, Structural)]
pub enum Channel {
    /// The channel this party sends on.
    Send,
    /// The channel this party receives on.
    Recv,
}

/// On a secure transport, the lower id (the dialling side) sends on the
/// stream tagged low-to-high and receives on the other; the accepting side
/// the reverse.
pub open spec fn channel_of(role: LinkRole, tag: StreamRole) -> Channel {
    match (role, tag) {
        (LinkRole::Connect, StreamRole::LowToHigh) => Channel::Send,
        (LinkRole::Connect, StreamRole::HighToLow) => Channel::Recv,
        (LinkRole::Accept, StreamRole::LowToHigh) => Channel::Recv,
        (LinkRole::Accept, StreamRole::HighToLow) => Channel::Send,
    }
}

/// The channel that a secure stream with tag `tag` fills on this side.
pub fn channel_for(role: LinkRole, tag: StreamRole) -> (r: Channel)
    ensures
        r == channel_of(role, tag),
{
    match (role, tag) {
        (LinkRole::Connect, StreamRole::LowToHigh) => Channel::Send,
        (LinkRole::Connect, StreamRole::HighToLow) => Channel::Recv,
        (LinkRole::Accept, StreamRole::LowToHigh) => Channel::Recv,
        (LinkRole::Accept, StreamRole::HighToLow) => Channel::Send,
    }
}

/// The two ends of one secure stream fill opposite channels: what one side
/// sends on, the other receives on.
pub proof fn lemma_streams_pair_up(tag: StreamRole)
    ensures
        channel_of(LinkRole::Connect, tag) != channel_of(LinkRole::Accept, tag),
{
}

/// Whether an accepted connection's header is one this party can take: a
/// lane that exists, from a party that exists and dials this one.
pub open spec fn route_ok(h: Handshake, self_id: nat, num_parties: nat, num_lanes: nat) -> bool {
    h.lane < num_lanes && h.origin < num_parties && link_role_of(h.origin as nat, self_id) == Some(
        LinkRole::Connect,
    )
}

/// The lane and the peer that an accepted connection belongs to, from its
/// header; `HandshakeFailed` where the header names no such lane or peer.
pub fn route_incoming(h: &Handshake, self_id: usize, num_parties: usize, num_lanes: usize) -> (r:
    Result<(usize, usize), TransportError>)
    ensures
        route_ok(*h, self_id as nat, num_parties as nat, num_lanes as nat) ==> r == Ok::<
            (usize, usize),
            TransportError,
        >((h.lane as usize, h.origin as usize)),
        !route_ok(*h, self_id as nat, num_parties as nat, num_lanes as nat) ==> r == Err::<
            (usize, usize),
            TransportError,
        >(TransportError::HandshakeFailed),
{
    if h.lane < num_lanes as u64 && h.origin < num_parties as u64 && h.origin < self_id as u64 {
        Ok((h.lane as usize, h.origin as usize))
    } else {
        Err(TransportError::HandshakeFailed)
    }
}

/// One connection that establishment makes or takes.
#[derive(Debug, Clone, Copy, PartialEq, Eq, Structural)]
pub struct LinkStep {
    /// The lane the connection is for.
    pub lane: usize,
    /// The direction tag, on secure transports only.
    pub role: Option<StreamRole>,
    /// The other party.
    pub peer: usize,
    /// Whether this party dials or accepts.
    pub link: LinkRole,
}

/// The direction tags that each lane and peer needs: both on a secure
/// transport, none on a plain one.
pub open spec fn role_at(secure: bool, t: nat) -> Option<StreamRole> {
    if !secure {
        None
    } else if t == 0 {
        Some(StreamRole::LowToHigh)
    } else {
        Some(StreamRole::HighToLow)
    }
}

pub open spec fn role_count(secure: bool) -> nat {
    if secure {
        2
    } else {
        1
    }
}

pub open spec fn role_index(r: Option<StreamRole>) -> nat {
    match r {
        Some(StreamRole::HighToLow) => 1,
        _ => 0,
    }
}

/// A role that a plan for this kind of transport uses.
pub open spec fn role_fits(secure: bool, r: Option<StreamRole>) -> bool {
    if secure {
        r is Some
    } else {
        r is None
    }
}

/// `(l1, t1, p1)` comes before `(l2, t2, p2)`: lane first, then tag, then peer.
pub open spec fn before(l1: nat, t1: nat, p1: nat, l2: nat, t2: nat, p2: nat) -> bool {
    l1 < l2 || (l1 == l2 && (t1 < t2 || (t1 == t2 && p1 < p2)))
}

pub open spec fn step_before(a: LinkStep, b: LinkStep) -> bool {
    before(
        a.lane as nat,
        role_index(a.role),
        a.peer as nat,
        b.lane as nat,
        role_index(b.role),
        b.peer as nat,
    )
}

/// A step of the plan for party `id` among `n`, over `lanes` lanes.
pub open spec fn step_fits(st: LinkStep, id: nat, n: nat, lanes: nat, secure: bool) -> bool {
    &&& st.lane < lanes
    &&& st.peer < n
    &&& st.peer != id
    &&& role_fits(secure, st.role)
    &&& link_role_of(id, st.peer as nat) == Some(st.link)
}

/// `plan` holds the step for this lane, tag and peer.
pub open spec fn covers(plan: Seq<LinkStep>, lane: nat, role: Option<StreamRole>, peer: nat) -> bool {
    exists|k: int|
        0 <= k < plan.len() && (#[trigger] plan[k]).lane == lane && plan[k].role == role
            && plan[k].peer == peer
}

/// What the plan holds once every position before `(lane, t, peer)` is done.
pub open spec fn plan_upto(
    plan: Seq<LinkStep>,
    id: nat,
    n: nat,
    lanes: nat,
    secure: bool,
    lane: nat,
    t: nat,
    peer: nat,
) -> bool {
    &&& forall|k: int| 0 <= k < plan.len() ==> step_fits(#[trigger] plan[k], id, n, lanes, secure)
    &&& forall|k: int|
        0 <= k < plan.len() ==> before(
            (#[trigger] plan[k]).lane as nat,
            role_index(plan[k].role),
            plan[k].peer as nat,
            lane,
            t,
            peer,
        )
    &&& forall|j: int, k: int|
        #![trigger plan[j], plan[k]]
        0 <= j < k < plan.len() ==> step_before(plan[j], plan[k])
    &&& forall|l: nat, r: Option<StreamRole>, p: nat|
        l < lanes && role_fits(secure, r) && p < n && p != id && before(l, role_index(r), p, lane, t, peer)
            ==> #[trigger] covers(plan, l, r, p)
}

/// Every connection that party `self_id` of `num_parties` makes or takes to
/// set up `num_lanes` lanes, lane by lane, then tag by tag, then peer by peer.
/// Each lane, tag and other party appears exactly once, with the dialling side
/// chosen by `link_role`.
pub fn establishment_plan(self_id: usize, num_parties: usize, num_lanes: usize, secure: bool) -> (r:
    Vec<LinkStep>)
    ensures
        forall|k: int|
            0 <= k < r@.len() ==> step_fits(
                #[trigger] r@[k],
                self_id as nat,
                num_parties as nat,
                num_lanes as nat,
                secure,
            ),
        forall|j: int, k: int|
            #![trigger r@[j], r@[k]]
            0 <= j < k < r@.len() ==> step_before(r@[j], r@[k]),
        forall|l: nat, role: Option<StreamRole>, p: nat|
            l < num_lanes && role_fits(secure, role) && p < num_parties && p != self_id
                ==> #[trigger] covers(r@, l, role, p),
{
    let ghost id = self_id as nat;
    let ghost n = num_parties as nat;
    let ghost lanes = num_lanes as nat;
    let tags: usize = if secure { 2 } else { 1 };
    let mut r: Vec<LinkStep> = Vec::new();
    let mut lane: usize = 0;
    while lane < num_lanes
        invariant
            lane <= num_lanes,
            id == self_id as nat,
            n == num_parties as nat,
            lanes == num_lanes as nat,
            tags == role_count(secure),
            plan_upto(r@, id, n, lanes, secure, lane as nat, 0, 0),
        decreases num_lanes - lane,
    {
        let mut t: usize = 0;
        while t < tags
            invariant
                lane < num_lanes,
                id == self_id as nat,
                n == num_parties as nat,
                lanes == num_lanes as nat,
                t <= tags,
                tags == role_count(secure),
                plan_upto(r@, id, n, lanes, secure, lane as nat, t as nat, 0),
            decreases tags - t,
        {
            let role = if !secure {
                None
            } else if t == 0 {
                Some(StreamRole::LowToHigh)
            } else {
                Some(StreamRole::HighToLow)
            };
            assert(role == role_at(secure, t as nat) && role_index(role) == t);
            let mut peer: usize = 0;
            while peer < num_parties
                invariant
                    lane < num_lanes,
                    id == self_id as nat,
                    n == num_parties as nat,
                    lanes == num_lanes as nat,
                    t < tags,
                    tags == role_count(secure),
                    role == role_at(secure, t as nat),
                    role_index(role) == t,
                    peer <= num_parties,
                    plan_upto(r@, id, n, lanes, secure, lane as nat, t as nat, peer as nat),
                decreases num_parties - peer,
            {
                let ghost old_r = r@;
                match link_role(self_id, peer) {
                    Some(link) => {
                        r.push(LinkStep { lane, role, peer, link });
                        proof {
                            let last = r@[old_r.len() as int];
                            assert(last.lane == lane && last.role == role && last.peer == peer);
                            assert forall|k: int| 0 <= k < old_r.len() implies step_before(
                                #[trigger] r@[k],
                                last,
                            ) by {
                                assert(r@[k] == old_r[k]);
                            }
                        }
                    },
                    None => {},
                }
                assert(peer != self_id ==> r@.len() == old_r.len() + 1 && r@[old_r.len() as int].lane
                    == lane && r@[old_r.len() as int].role == role && r@[old_r.len() as int].peer
                    == peer);
                assert(peer == self_id ==> r@ == old_r);
                proof {
                    assert forall|l: nat, rl: Option<StreamRole>, p: nat|
                        l < lanes && role_fits(secure, rl) && p < n && p != id && before(
                            l,
                            role_index(rl),
                            p,
                            lane as nat,
                            t as nat,
                            peer as nat + 1,
                        ) implies #[trigger] covers(r@, l, rl, p) by {
                        if before(l, role_index(rl), p, lane as nat, t as nat, peer as nat) {
                            assert(covers(old_r, l, rl, p));
                            let k = choose|k: int|
                                0 <= k < old_r.len() && (#[trigger] old_r[k]).lane == l
                                    && old_r[k].role == rl && old_r[k].peer == p;
                            assert(r@[k] == old_r[k]);
                        } else {
                            assert(l == lane && role_index(rl) == t && p == peer);
                            assert(rl == role);
                            assert(r@[old_r.len() as int].lane == l);
                        }
                    }
                }
                peer = peer + 1;
            }
            proof {
                assert forall|l: nat, rl: Option<StreamRole>, p: nat|
                    l < lanes && role_fits(secure, rl) && p < n && p != id && before(
                        l,
                        role_index(rl),
                        p,
                        lane as nat,
                        t as nat + 1,
                        0,
                    ) implies #[trigger] covers(r@, l, rl, p) by {
                    assert(before(l, role_index(rl), p, lane as nat, t as nat, n));
                }
            }
            t = t + 1;
        }
        proof {
            assert forall|l: nat, rl: Option<StreamRole>, p: nat|
                l < lanes && role_fits(secure, rl) && p < n && p != id && before(
                    l,
                    role_index(rl),
                    p,
                    lane as nat + 1,
                    0,
                    0,
                ) implies #[trigger] covers(r@, l, rl, p) by {
                assert(role_index(rl) < role_count(secure));
                assert(before(l, role_index(rl), p, lane as nat, tags as nat, 0));
            }
        }
        lane = lane + 1;
    }
    r
}

} // verus!
