//! IPv4: addresses, the 20-byte header without options, loopback-only routing
//! and the receive loop that dispatches by protocol number.

use super::checksum::{checksum_value, embed_be16, lemma_checksum_self_verifies, InternetChecksum};
use super::icmp::{
    echo_packet, handle_icmp_packet, handle_icmp_spec, send_echo_spec, unsummed_echo, IcmpEvent,
};
use super::loopback::{loopback_consume, loopback_send, LoopbackInterface, MAX_PACKETS};
use super::{append_bytes, from_be16, lemma_be16_round_trip, lemma_from_be16_split, NetError};
use vstd::prelude::*;
use vstd::slice::{slice_subrange, slice_to_vec};

verus! {

/// Size of an IPv4 header without options.
pub const IPV4_HEADER_SIZE: usize = 20;

/// The largest IP packet, header included, that this stack sends.
pub const MAX_IP_PACKET: usize = 1500;

/// Offset of the header checksum within the IPv4 header.
pub const IPV4_CHECKSUM_OFFSET: usize = 10;

/// An IPv4 address, as its four octets in network order.
#[derive(Debug, Clone, Copy, PartialEq, Eq, Structural)]
pub struct IpV4Addr {
    pub a: u8,
    pub b: u8,
    pub c: u8,
    pub d: u8,
}

/// 127.0.0.1.
pub open spec fn spec_loopback_addr() -> IpV4Addr {
    IpV4Addr { a: 127, b: 0, c: 0, d: 1 }
}

/// The address whose octets are the bytes of `n`, most significant first.
pub open spec fn spec_addr_from_be(n: u32) -> IpV4Addr {
    IpV4Addr {
        a: (n / 256 / 256 / 256) as u8,
        b: (n / 256 / 256 % 256) as u8,
        c: (n / 256 % 256) as u8,
        d: (n % 256) as u8,
    }
}

impl IpV4Addr {
    /// The four octets, first on the wire first.
    pub open spec fn octets(self) -> Seq<u8> {
        seq![self.a, self.b, self.c, self.d]
    }

    /// The address as a 32-bit number whose most significant byte is the first octet.
    pub open spec fn be_value(self) -> nat {
        self.a as nat * 0x100_0000 + self.b as nat * 0x1_0000 + self.c as nat * 0x100
            + self.d as nat
    }

    /// Whether the address lies in 127.0.0.0/8.
    pub open spec fn spec_is_loopback(self) -> bool {
        self.a == 127
    }

    pub fn new(a: u8, b: u8, c: u8, d: u8) -> (r: Self)
        ensures
            r == (IpV4Addr { a, b, c, d }),
    {
        IpV4Addr { a, b, c, d }
    }

    /// 127.0.0.1.
    pub fn loopback() -> (r: Self)
        ensures
            r == spec_loopback_addr(),
    {
        IpV4Addr { a: 127, b: 0, c: 0, d: 1 }
    }

    /// 0.0.0.0.
    pub fn any() -> (r: Self)
        ensures
            r == (IpV4Addr { a: 0, b: 0, c: 0, d: 0 }),
    {
        IpV4Addr { a: 0, b: 0, c: 0, d: 0 }
    }

    pub fn bytes(&self) -> (r: [u8; 4])
        ensures
            r@ == self.octets(),
    {
        let r = [self.a, self.b, self.c, self.d];
        assert(r@ =~= self.octets());
        r
    }

    /// Whether the address lies in 127.0.0.0/8, not only whether it is 127.0.0.1.
    pub fn is_loopback(&self) -> (r: bool)
        ensures
            r == self.spec_is_loopback(),
    {
        self.a == 127
    }

    pub fn to_be_u32(&self) -> (r: u32)
        ensures
            r == self.be_value(),
    {
        self.a as u32 * 0x100_0000 + self.b as u32 * 0x1_0000 + self.c as u32 * 0x100
            + self.d as u32
    }

    pub fn from_be_u32(n: u32) -> (r: Self)
        ensures
            r == spec_addr_from_be(n),
            r.be_value() == n,
    {
        let x1 = n / 256;
        let x2 = x1 / 256;
        let x3 = x2 / 256;
        let d = n % 256;
        let c = x1 % 256;
        let b = x2 % 256;
        assert(x3 * 0x100_0000 + b * 0x1_0000 + c * 0x100 + d == n && x3 < 256) by (nonlinear_arith)
            requires
                n == 256 * x1 + d,
                x1 == 256 * x2 + c,
                x2 == 256 * x3 + b,
                n <= 0xFFFF_FFFF,
                b >= 0,
                c >= 0,
                d >= 0,
        ;
        IpV4Addr { a: x3 as u8, b: b as u8, c: c as u8, d: d as u8 }
    }
}

/// An IP protocol number.
#[derive(Debug, Clone, Copy, PartialEq, Eq, Structural)]
pub struct IpV4Protocol(pub u8);

impl IpV4Protocol {
    pub fn icmp() -> (r: Self)
        ensures
            r.0 == 1,
    {
        IpV4Protocol(1)
    }

    pub fn tcp() -> (r: Self)
        ensures
            r.0 == 6,
    {
        IpV4Protocol(6)
    }

    pub fn udp() -> (r: Self)
        ensures
            r.0 == 17,
    {
        IpV4Protocol(17)
    }
}

/// An IPv4 header without options. Multi-byte fields hold host values and go
/// on the wire big-endian.
#[derive(Clone, Copy)]
pub struct IpV4Header {
    pub version_and_ihl: u8,
    pub dscp_and_ecn: u8,
    pub total_length: u16,
    pub identification: u16,
    pub flags_and_offset: u16,
    pub ttl: u8,
    pub protocol: IpV4Protocol,
    pub checksum: InternetChecksum,
    pub src_addr: IpV4Addr,
    pub dst_addr: IpV4Addr,
}

/// The header that `IpV4Header::new` builds, before its checksum is filled in.
pub open spec fn unsummed_header(
    src: IpV4Addr,
    dst: IpV4Addr,
    protocol: IpV4Protocol,
    data_len: nat,
) -> IpV4Header {
    IpV4Header {
        version_and_ihl: 0x45,
        dscp_and_ecn: 0,
        total_length: (IPV4_HEADER_SIZE + data_len) as u16,
        identification: 0,
        flags_and_offset: 0,
        ttl: 64,
        protocol,
        checksum: InternetChecksum { hi: 0, lo: 0 },
        src_addr: src,
        dst_addr: dst,
    }
}

/// The header for `data_len` bytes of payload: version 4, no options, TTL 64, and
/// the checksum over the header with a zero checksum field.
pub open spec fn header_for(
    src: IpV4Addr,
    dst: IpV4Addr,
    protocol: IpV4Protocol,
    data_len: nat,
) -> IpV4Header {
    let z = unsummed_header(src, dst, protocol, data_len);
    let c = checksum_value(z.wire());
    IpV4Header { checksum: InternetChecksum { hi: (c / 256) as u8, lo: (c % 256) as u8 }, ..z }
}

/// The packet that `ip_send` hands to the device: header from 127.0.0.1, then `data`.
pub open spec fn ip_packet(dst: IpV4Addr, protocol: IpV4Protocol, data: Seq<u8>) -> Seq<u8> {
    header_for(spec_loopback_addr(), dst, protocol, data.len()).wire() + data
}

/// What `ip_send` leaves queued on a device holding `q`, and its result.
pub open spec fn ip_send_spec(
    q: Seq<Seq<u8>>,
    dst: IpV4Addr,
    protocol: IpV4Protocol,
    data: Seq<u8>,
) -> (Seq<Seq<u8>>, Result<(), NetError>) {
    if !dst.spec_is_loopback() {
        (q, Err(NetError::NoRoute))
    } else if IPV4_HEADER_SIZE + data.len() > MAX_IP_PACKET {
        (q, Err(NetError::InvalidPacket))
    } else {
        loopback_send(q, ip_packet(dst, protocol, data))
    }
}

impl IpV4Header {
    /// The 20 bytes of the header on the wire.
    pub open spec fn wire(self) -> Seq<u8> {
        seq![
            self.version_and_ihl,
            self.dscp_and_ecn,
            (self.total_length / 256) as u8,
            (self.total_length % 256) as u8,
            (self.identification / 256) as u8,
            (self.identification % 256) as u8,
            (self.flags_and_offset / 256) as u8,
            (self.flags_and_offset % 256) as u8,
            self.ttl,
            self.protocol.0,
            self.checksum.hi,
            self.checksum.lo,
            self.src_addr.a,
            self.src_addr.b,
            self.src_addr.c,
            self.src_addr.d,
            self.dst_addr.a,
            self.dst_addr.b,
            self.dst_addr.c,
            self.dst_addr.d,
        ]
    }

    /// A header for `data_len` bytes of payload, with its checksum.
    pub fn new(src: IpV4Addr, dst: IpV4Addr, protocol: IpV4Protocol, data_len: usize) -> (r: Self)
        requires
            IPV4_HEADER_SIZE + data_len <= 0xFFFF,
        ensures
            r == header_for(src, dst, protocol, data_len as nat),
    {
        let mut header = IpV4Header {
            version_and_ihl: 0x45,
            dscp_and_ecn: 0,
            total_length: (IPV4_HEADER_SIZE + data_len) as u16,
            identification: 0,
            flags_and_offset: 0,
            ttl: 64,
            protocol,
            checksum: InternetChecksum::zero(),
            src_addr: src,
            dst_addr: dst,
        };
        let bytes = header.to_bytes();
        let c = InternetChecksum::calc(bytes.as_slice());
        proof {
            lemma_from_be16_split(c.hi, c.lo);
        }
        header.checksum = c;
        header
    }

    /// The header's bytes on the wire.
    pub fn to_bytes(&self) -> (r: Vec<u8>)
        ensures
            r@ == self.wire(),
    {
        let mut v: Vec<u8> = Vec::new();
        v.push(self.version_and_ihl);
        v.push(self.dscp_and_ecn);
        v.push((self.total_length / 256) as u8);
        v.push((self.total_length % 256) as u8);
        v.push((self.identification / 256) as u8);
        v.push((self.identification % 256) as u8);
        v.push((self.flags_and_offset / 256) as u8);
        v.push((self.flags_and_offset % 256) as u8);
        v.push(self.ttl);
        v.push(self.protocol.0);
        v.push(self.checksum.hi);
        v.push(self.checksum.lo);
        v.push(self.src_addr.a);
        v.push(self.src_addr.b);
        v.push(self.src_addr.c);
        v.push(self.src_addr.d);
        v.push(self.dst_addr.a);
        v.push(self.dst_addr.b);
        v.push(self.dst_addr.c);
        v.push(self.dst_addr.d);
        assert(v@ =~= self.wire());
        v
    }

    /// Reads a header from the first 20 bytes of `b`, wherever they lie in memory;
    /// `None` when `b` is shorter.
    pub fn from_bytes(b: &[u8]) -> (r: Option<Self>)
        ensures
            b@.len() < IPV4_HEADER_SIZE <==> r is None,
            r matches Some(h) ==> h.wire() == b@.subrange(0, IPV4_HEADER_SIZE as int),
    {
        if b.len() < IPV4_HEADER_SIZE {
            return None;
        }
        proof {
            lemma_from_be16_split(b@[2], b@[3]);
            lemma_from_be16_split(b@[4], b@[5]);
            lemma_from_be16_split(b@[6], b@[7]);
        }
        let h = IpV4Header {
            version_and_ihl: b[0],
            dscp_and_ecn: b[1],
            total_length: b[2] as u16 * 256 + b[3] as u16,
            identification: b[4] as u16 * 256 + b[5] as u16,
            flags_and_offset: b[6] as u16 * 256 + b[7] as u16,
            ttl: b[8],
            protocol: IpV4Protocol(b[9]),
            checksum: InternetChecksum { hi: b[10], lo: b[11] },
            src_addr: IpV4Addr { a: b[12], b: b[13], c: b[14], d: b[15] },
            dst_addr: IpV4Addr { a: b[16], b: b[17], c: b[18], d: b[19] },
        };
        assert(h.wire() =~= b@.subrange(0, IPV4_HEADER_SIZE as int));
        Some(h)
    }

    pub fn src(&self) -> (r: IpV4Addr)
        ensures
            r == self.src_addr,
    {
        self.src_addr
    }

    pub fn dst(&self) -> (r: IpV4Addr)
        ensures
            r == self.dst_addr,
    {
        self.dst_addr
    }

    pub fn protocol(&self) -> (r: IpV4Protocol)
        ensures
            r == self.protocol,
    {
        self.protocol
    }
}

/// A built header verifies: its bytes are the unsummed bytes with the checksum
/// written at the checksum offset, and the checksum over them is zero.
pub proof fn lemma_header_checksum_verifies(
    src: IpV4Addr,
    dst: IpV4Addr,
    protocol: IpV4Protocol,
    data_len: nat,
)
    ensures
        ({
            let z = unsummed_header(src, dst, protocol, data_len).wire();
            header_for(src, dst, protocol, data_len).wire() == embed_be16(
                z,
                IPV4_CHECKSUM_OFFSET as int,
                checksum_value(z),
            )
        }),
        checksum_value(header_for(src, dst, protocol, data_len).wire()) == 0,
{
    let z = unsummed_header(src, dst, protocol, data_len).wire();
    assert(header_for(src, dst, protocol, data_len).wire() =~= embed_be16(
        z,
        IPV4_CHECKSUM_OFFSET as int,
        checksum_value(z),
    ));
    lemma_checksum_self_verifies(z, IPV4_CHECKSUM_OFFSET as int);
}

/// Brings up the IP layer: the one loopback device it sends on, empty.
pub fn init() -> (r: LoopbackInterface)
    ensures
        r.wf(),
        r@.len() == 0,
{
    LoopbackInterface::new()
}

/// Sends `data` to `dst` with the given protocol: only 127.0.0.0/8 is routed, the
/// source is always 127.0.0.1, and header plus data may not exceed 1500 bytes.
pub fn ip_send(
    lo: &mut LoopbackInterface,
    dst: IpV4Addr,
    protocol: IpV4Protocol,
    data: &[u8],
) -> (r: Result<(), NetError>)
    requires
        old(lo).wf(),
    ensures
        final(lo).wf(),
        (final(lo)@, r) == ip_send_spec(old(lo)@, dst, protocol, data@),
{
    if !dst.is_loopback() {
        return Err(NetError::NoRoute);
    }
    if data.len() > MAX_IP_PACKET - IPV4_HEADER_SIZE {
        return Err(NetError::InvalidPacket);
    }
    let header = IpV4Header::new(IpV4Addr::loopback(), dst, protocol, data.len());
    let mut packet = header.to_bytes();
    append_bytes(&mut packet, data);
    lo.send(packet.as_slice())
}

/// The source address written in the header at the front of `p`.
pub open spec fn packet_src(p: Seq<u8>) -> IpV4Addr {
    IpV4Addr { a: p[12], b: p[13], c: p[14], d: p[15] }
}

/// One turn of the receive loop on a nonempty queue `q`: the packet at the front
/// is dropped when shorter than an IP header or not ICMP, and otherwise handed to
/// ICMP, which may queue a reply behind the others, before it is consumed.
pub open spec fn rx_step(q: Seq<Seq<u8>>) -> (Seq<Seq<u8>>, Option<IcmpEvent>) {
    let p = q[0];
    if p.len() < IPV4_HEADER_SIZE || p[9] != 1 {
        (q.drop_first(), None)
    } else {
        let (q2, ev) = handle_icmp_spec(
            q,
            packet_src(p),
            p.subrange(IPV4_HEADER_SIZE as int, p.len() as int),
        );
        (loopback_consume(q2), ev)
    }
}

/// Whether `p` is an ICMP echo request that the receive loop would answer.
pub open spec fn is_echo_request_packet(p: Seq<u8>) -> bool {
    p.len() >= IPV4_HEADER_SIZE + 8 && p[9] == 1 && p[20] == 8
}

/// Work left in a queue: each packet counts one, and an echo request one more for
/// the reply it brings.
pub open spec fn queue_work(q: Seq<Seq<u8>>) -> nat
    decreases q.len(),
{
    if q.len() == 0 {
        0
    } else {
        (if is_echo_request_packet(q[0]) {
            2nat
        } else {
            1nat
        }) + queue_work(q.drop_first())
    }
}

proof fn lemma_queue_work_push(q: Seq<Seq<u8>>, p: Seq<u8>)
    ensures
        queue_work(q.push(p)) == queue_work(q) + queue_work(seq![p]),
    decreases q.len(),
{
    if q.len() > 0 {
        assert(q.push(p).drop_first() =~= q.drop_first().push(p));
        lemma_queue_work_push(q.drop_first(), p);
    } else {
        assert(q.push(p) =~= seq![p]);
    }
}

/// Each turn of the receive loop leaves less work.
pub proof fn lemma_rx_step_decreases(q: Seq<Seq<u8>>)
    requires
        q.len() > 0,
    ensures
        queue_work(rx_step(q).0) < queue_work(q),
{
    let p = q[0];
    if p.len() < IPV4_HEADER_SIZE || p[9] != 1 {
    } else {
        let data = p.subrange(IPV4_HEADER_SIZE as int, p.len() as int);
        let (q2, ev) = handle_icmp_spec(q, packet_src(p), data);
        if q2 != q {
            let id = super::from_be16(data[4], data[5]) as u16;
            let seq = super::from_be16(data[6], data[7]) as u16;
            let payload = data.subrange(8, data.len() as int);
            let reply = ip_packet(packet_src(p), IpV4Protocol(1), echo_packet(0, id, seq, payload));
            assert(q2 == q.push(reply));
            assert(reply[20] == 0);
            assert(is_echo_request_packet(p));
            lemma_queue_work_push(q.drop_first(), reply);
            assert(q.push(reply).drop_first() =~= q.drop_first().push(reply));
            assert(queue_work(seq![reply]) == 1) by {
                let one = seq![reply];
                assert(one.drop_first().len() == 0);
                assert(queue_work(one.drop_first()) == 0);
                assert(!is_echo_request_packet(one[0]));
            }
        }
    }
}

/// The ICMP events of draining `q`, in the order in which the packets were handled.
pub open spec fn drain_events(q: Seq<Seq<u8>>) -> Seq<IcmpEvent>
    decreases queue_work(q),
{
    if q.len() == 0 {
        Seq::empty()
    } else {
        let (q2, ev) = rx_step(q);
        if queue_work(q2) < queue_work(q) {
            match ev {
                Some(e) => seq![e] + drain_events(q2),
                None => drain_events(q2),
            }
        } else {
            Seq::empty()
        }
    }
}

/// Runs one turn of the receive loop on a nonempty device.
pub fn process_next(lo: &mut LoopbackInterface) -> (r: Option<IcmpEvent>)
    requires
        old(lo).wf(),
        old(lo)@.len() > 0,
    ensures
        final(lo).wf(),
        (final(lo)@, r) == rx_step(old(lo)@),
{
    let (src, payload) = match lo.recv() {
        Some(p) => {
            if p.len() < IPV4_HEADER_SIZE {
                (None, Vec::new())
            } else {
                match IpV4Header::from_bytes(p) {
                    Some(h) => {
                        if h.protocol.0 == 1 {
                            (Some(h.src_addr), slice_to_vec(slice_subrange(p, IPV4_HEADER_SIZE, p.len())))
                        } else {
                            (None, Vec::new())
                        }
                    },
                    None => (None, Vec::new()),
                }
            }
        },
        None => (None, Vec::new()),
    };
    let ev = match src {
        Some(s) => handle_icmp_packet(lo, s, payload.as_slice()),
        None => None,
    };
    lo.consume();
    ev
}

/// Drains the device: runs the receive loop until no packet is queued, and
/// returns what the ICMP messages among them led to. Replies queued on the way
/// are drained too. Never blocks; an empty device is left as it is.
pub fn process_packets(lo: &mut LoopbackInterface) -> (r: Vec<IcmpEvent>)
    requires
        old(lo).wf(),
    ensures
        final(lo).wf(),
        final(lo)@.len() == 0,
        r@ == drain_events(old(lo)@),
{
    let mut events: Vec<IcmpEvent> = Vec::new();
    while !lo.is_empty()
        invariant
            lo.wf(),
            events@ + drain_events(lo@) == drain_events(old(lo)@),
        decreases queue_work(lo@),
    {
        let ghost before = lo@;
        proof {
            lemma_rx_step_decreases(before);
        }
        let ev = process_next(lo);
        match ev {
            Some(e) => {
                assert(events@.push(e) + drain_events(lo@) =~= events@ + drain_events(before));
                events.push(e);
            },
            None => {},
        }
    }
    assert(drain_events(lo@) =~= Seq::<IcmpEvent>::empty());
    assert(events@ + drain_events(lo@) =~= events@);
    events
}

/// Only 127.0.0.0/8 is routed: sending elsewhere fails with `NoRoute` and queues
/// nothing, while sending there on a device with room queues the packet behind
/// the others, so that on an empty device it is the one `recv` returns.
pub proof fn lemma_ip_send_routing(
    q: Seq<Seq<u8>>,
    dst: IpV4Addr,
    protocol: IpV4Protocol,
    data: Seq<u8>,
)
    requires
        q.len() < MAX_PACKETS,
        IPV4_HEADER_SIZE + data.len() <= MAX_IP_PACKET,
    ensures
        !dst.spec_is_loopback() ==> ip_send_spec(q, dst, protocol, data) == (q, Err::<(), NetError>(
            NetError::NoRoute,
        )),
        dst.spec_is_loopback() ==> ip_send_spec(q, dst, protocol, data) == (
            q.push(ip_packet(dst, protocol, data)),
            Ok::<(), NetError>(()),
        ),
        dst.spec_is_loopback() && q.len() == 0 ==> ip_send_spec(q, dst, protocol, data).0[0]
            == ip_packet(dst, protocol, data),
{
}

/// A packet shorter than an IP header is consumed and delivers nothing to ICMP.
pub proof fn lemma_short_packet_dropped(q: Seq<Seq<u8>>)
    requires
        q.len() > 0,
        q[0].len() < IPV4_HEADER_SIZE,
    ensures
        rx_step(q) == (q.drop_first(), None::<IcmpEvent>),
        drain_events(q) == drain_events(q.drop_first()),
{
    lemma_rx_step_decreases(q);
}

/// Ping over loopback: an echo request to 127.0.0.1 on an empty device is queued;
/// one turn of the receive loop consumes it and leaves exactly the echo reply
/// with the same identifier, sequence number and payload, whose checksum verifies.
pub proof fn lemma_echo_round_trip(id: u16, seq: u16, data: Seq<u8>)
    requires
        8 + data.len() <= 1480,
    ensures
        ({
            let lb = spec_loopback_addr();
            let (q1, r1) = send_echo_spec(Seq::empty(), 8, lb, id, seq, data);
            let (q2, ev) = rx_step(q1);
            let reply = echo_packet(0, id, seq, data);
            &&& r1 == Ok::<(), NetError>(())
            &&& q1 == seq![ip_packet(lb, IpV4Protocol(1), echo_packet(8, id, seq, data))]
            &&& ev == Some(IcmpEvent::EchoRequest { src: lb, id, seq, reply: Ok(()) })
            &&& q2 == seq![ip_packet(lb, IpV4Protocol(1), reply)]
            &&& checksum_value(reply) == 0
        }),
{
    let lb = spec_loopback_addr();
    let req = echo_packet(8, id, seq, data);
    let p = ip_packet(lb, IpV4Protocol(1), req);
    let (q1, r1) = send_echo_spec(Seq::empty(), 8, lb, id, seq, data);
    assert(q1 =~= seq![p]);
    let icmp = p.subrange(IPV4_HEADER_SIZE as int, p.len() as int);
    assert(icmp =~= req);
    assert(packet_src(p) == lb);
    lemma_be16_round_trip(id);
    lemma_be16_round_trip(seq);
    assert(from_be16(req[4], req[5]) as u16 == id);
    assert(from_be16(req[6], req[7]) as u16 == seq);
    assert(req.subrange(8, req.len() as int) =~= data);
    let reply = echo_packet(0, id, seq, data);
    let rp = ip_packet(lb, IpV4Protocol(1), reply);
    assert(q1.push(rp).drop_first() =~= seq![rp]);
    lemma_checksum_self_verifies(unsummed_echo(0, id, seq, data), 2);
}

} // verus!
