//! ICMP echo: building requests and replies, and answering inbound requests.

use super::checksum::{checksum_value, embed_be16, InternetChecksum};
use super::ip::{ip_send, ip_send_spec, IpV4Addr, IpV4Protocol};
use super::loopback::LoopbackInterface;
use super::{append_bytes, from_be16, lemma_from_be16_split, NetError};
use vstd::prelude::*;
use vstd::slice::slice_subrange;

verus! {

/// Size of an ICMP echo header.
pub const ICMP_ECHO_HEADER_SIZE: usize = 8;

/// The largest ICMP message that fits one IP packet: 1500 bytes less the IP header.
pub const MAX_ICMP_PACKET: usize = 1480;

/// Offset of the checksum within the ICMP echo header.
pub const ICMP_CHECKSUM_OFFSET: usize = 2;

/// An ICMP message type.
#[derive(Debug, Clone, Copy, PartialEq, Eq, Structural)]
pub struct IcmpType(pub u8);

impl IcmpType {
    pub fn echo_reply() -> (r: Self)
        ensures
            r.0 == 0,
    {
        IcmpType(0)
    }

    pub fn echo_request() -> (r: Self)
        ensures
            r.0 == 8,
    {
        IcmpType(8)
    }
}

/// An ICMP echo header. Identifier and sequence number hold host values and go
/// on the wire big-endian.
#[derive(Clone, Copy)]
pub struct IcmpEchoHeader {
    pub icmp_type: IcmpType,
    pub code: u8,
    pub checksum: InternetChecksum,
    pub identifier: u16,
    pub sequence: u16,
}

/// An echo header of type `ty` with code 0 and a zero checksum field.
pub open spec fn unsummed_echo_header(ty: u8, id: u16, seq: u16) -> IcmpEchoHeader {
    IcmpEchoHeader {
        icmp_type: IcmpType(ty),
        code: 0,
        checksum: InternetChecksum { hi: 0, lo: 0 },
        identifier: id,
        sequence: seq,
    }
}

/// The echo message of type `ty` carrying `data`, before its checksum is filled in.
pub open spec fn unsummed_echo(ty: u8, id: u16, seq: u16, data: Seq<u8>) -> Seq<u8> {
    unsummed_echo_header(ty, id, seq).wire() + data
}

/// The echo message of type `ty` carrying `data`, with the checksum over header
/// and data written into its checksum field.
pub open spec fn echo_packet(ty: u8, id: u16, seq: u16, data: Seq<u8>) -> Seq<u8> {
    let z = unsummed_echo(ty, id, seq, data);
    embed_be16(z, ICMP_CHECKSUM_OFFSET as int, checksum_value(z))
}

/// What sending an echo message of type `ty` leaves queued on a device holding
/// `q`, and its result.
pub open spec fn send_echo_spec(
    q: Seq<Seq<u8>>,
    ty: u8,
    dst: IpV4Addr,
    id: u16,
    seq: u16,
    data: Seq<u8>,
) -> (Seq<Seq<u8>>, Result<(), NetError>) {
    if ICMP_ECHO_HEADER_SIZE + data.len() > MAX_ICMP_PACKET {
        (q, Err(NetError::InvalidPacket))
    } else {
        ip_send_spec(q, dst, IpV4Protocol(1), echo_packet(ty, id, seq, data))
    }
}

/// What an inbound ICMP message led to.
#[derive(Debug, Clone, Copy, PartialEq, Eq)]
pub enum IcmpEvent {
    /// An echo request arrived; `reply` is the result of sending the echo reply.
    EchoRequest { src: IpV4Addr, id: u16, seq: u16, reply: Result<(), NetError> },
    /// An echo reply arrived. Nothing waits for it: it is only reported.
    EchoReply { src: IpV4Addr, id: u16, seq: u16 },
    /// A message of another type arrived and was dropped.
    Unknown { src: IpV4Addr, icmp_type: IcmpType },
}

/// What handling the ICMP message `data` from `src` leaves queued on a device
/// holding `q`, and what it led to; `None` for a message shorter than an echo header.
pub open spec fn handle_icmp_spec(q: Seq<Seq<u8>>, src: IpV4Addr, data: Seq<u8>) -> (
    Seq<Seq<u8>>,
    Option<IcmpEvent>,
) {
    if data.len() < ICMP_ECHO_HEADER_SIZE {
        (q, None)
    } else {
        let ty = data[0];
        let id = from_be16(data[4], data[5]) as u16;
        let seq = from_be16(data[6], data[7]) as u16;
        if ty == 8 {
            let (q2, reply) = send_echo_spec(
                q,
                0,
                src,
                id,
                seq,
                data.subrange(ICMP_ECHO_HEADER_SIZE as int, data.len() as int),
            );
            (q2, Some(IcmpEvent::EchoRequest { src, id, seq, reply }))
        } else if ty == 0 {
            (q, Some(IcmpEvent::EchoReply { src, id, seq }))
        } else {
            (q, Some(IcmpEvent::Unknown { src, icmp_type: IcmpType(ty) }))
        }
    }
}

impl IcmpEchoHeader {
    /// The 8 bytes of the header on the wire.
    pub open spec fn wire(self) -> Seq<u8> {
        seq![
            self.icmp_type.0,
            self.code,
            self.checksum.hi,
            self.checksum.lo,
            (self.identifier / 256) as u8,
            (self.identifier % 256) as u8,
            (self.sequence / 256) as u8,
            (self.sequence % 256) as u8,
        ]
    }

    pub fn new_request(id: u16, seq: u16) -> (r: Self)
        ensures
            r == unsummed_echo_header(8, id, seq),
    {
        IcmpEchoHeader {
            icmp_type: IcmpType::echo_request(),
            code: 0,
            checksum: InternetChecksum::zero(),
            identifier: id,
            sequence: seq,
        }
    }

    pub fn new_reply(id: u16, seq: u16) -> (r: Self)
        ensures
            r == unsummed_echo_header(0, id, seq),
    {
        IcmpEchoHeader {
            icmp_type: IcmpType::echo_reply(),
            code: 0,
            checksum: InternetChecksum::zero(),
            identifier: id,
            sequence: seq,
        }
    }

    /// The header's bytes on the wire.
    pub fn to_bytes(&self) -> (r: Vec<u8>)
        ensures
            r@ == self.wire(),
    {
        let mut v: Vec<u8> = Vec::new();
        v.push(self.icmp_type.0);
        v.push(self.code);
        v.push(self.checksum.hi);
        v.push(self.checksum.lo);
        v.push((self.identifier / 256) as u8);
        v.push((self.identifier % 256) as u8);
        v.push((self.sequence / 256) as u8);
        v.push((self.sequence % 256) as u8);
        assert(v@ =~= self.wire());
        v
    }

    /// Reads a header from the first 8 bytes of `b`, wherever they lie in memory;
    /// `None` when `b` is shorter.
    pub fn from_bytes(b: &[u8]) -> (r: Option<Self>)
        ensures
            b@.len() < ICMP_ECHO_HEADER_SIZE <==> r is None,
            r matches Some(h) ==> h.wire() == b@.subrange(0, ICMP_ECHO_HEADER_SIZE as int)
                && h.identifier == from_be16(b@[4], b@[5]) && h.sequence == from_be16(
                b@[6],
                b@[7],
            ),
    {
        if b.len() < ICMP_ECHO_HEADER_SIZE {
            return None;
        }
        proof {
            lemma_from_be16_split(b@[4], b@[5]);
            lemma_from_be16_split(b@[6], b@[7]);
        }
        let h = IcmpEchoHeader {
            icmp_type: IcmpType(b[0]),
            code: b[1],
            checksum: InternetChecksum { hi: b[2], lo: b[3] },
            identifier: b[4] as u16 * 256 + b[5] as u16,
            sequence: b[6] as u16 * 256 + b[7] as u16,
        };
        assert(h.wire() =~= b@.subrange(0, ICMP_ECHO_HEADER_SIZE as int));
        Some(h)
    }
}

/// Fills in the checksum of `header` over header and `data` and sends the message
/// to `dst` over IP.
fn send_echo(lo: &mut LoopbackInterface, header: IcmpEchoHeader, dst: IpV4Addr, data: &[u8]) -> (r:
    Result<(), NetError>)
    requires
        old(lo).wf(),
        header == unsummed_echo_header(header.icmp_type.0, header.identifier, header.sequence),
    ensures
        final(lo).wf(),
        (final(lo)@, r) == send_echo_spec(
            old(lo)@,
            header.icmp_type.0,
            dst,
            header.identifier,
            header.sequence,
            data@,
        ),
{
    if data.len() > MAX_ICMP_PACKET - ICMP_ECHO_HEADER_SIZE {
        return Err(NetError::InvalidPacket);
    }
    let mut packet = header.to_bytes();
    append_bytes(&mut packet, data);
    let ghost z = packet@;
    let c = InternetChecksum::calc(packet.as_slice());
    proof {
        lemma_from_be16_split(c.hi, c.lo);
    }
    packet.set(ICMP_CHECKSUM_OFFSET, c.hi);
    packet.set(ICMP_CHECKSUM_OFFSET + 1, c.lo);
    assert(packet@ =~= echo_packet(header.icmp_type.0, header.identifier, header.sequence, data@));
    ip_send(lo, dst, IpV4Protocol::icmp(), packet.as_slice())
}

/// Sends an echo request carrying `data` to `dst`; header and data together may
/// not exceed 1480 bytes.
pub fn send_echo_request(lo: &mut LoopbackInterface, dst: IpV4Addr, id: u16, seq: u16, data: &[u8]) -> (r:
    Result<(), NetError>)
    requires
        old(lo).wf(),
    ensures
        final(lo).wf(),
        (final(lo)@, r) == send_echo_spec(old(lo)@, 8, dst, id, seq, data@),
{
    send_echo(lo, IcmpEchoHeader::new_request(id, seq), dst, data)
}

/// Sends an echo reply carrying `data` to `dst`; header and data together may
/// not exceed 1480 bytes.
pub fn send_echo_reply(lo: &mut LoopbackInterface, dst: IpV4Addr, id: u16, seq: u16, data: &[u8]) -> (r:
    Result<(), NetError>)
    requires
        old(lo).wf(),
    ensures
        final(lo).wf(),
        (final(lo)@, r) == send_echo_spec(old(lo)@, 0, dst, id, seq, data@),
{
    send_echo(lo, IcmpEchoHeader::new_reply(id, seq), dst, data)
}

/// Handles the ICMP message `data` that arrived from `src`: an echo request is
/// answered with an echo reply to `src` with the same identifier, sequence number
/// and payload; anything else is only reported. Messages shorter than an echo
/// header are ignored.
pub fn handle_icmp_packet(lo: &mut LoopbackInterface, src: IpV4Addr, data: &[u8]) -> (r: Option<
    IcmpEvent,
>)
    requires
        old(lo).wf(),
    ensures
        final(lo).wf(),
        (final(lo)@, r) == handle_icmp_spec(old(lo)@, src, data@),
{
    let header = match IcmpEchoHeader::from_bytes(data) {
        Some(h) => h,
        None => {
            return None;
        },
    };
    let id = header.identifier;
    let seq = header.sequence;
    if header.icmp_type.0 == 8 {
        let payload = slice_subrange(data, ICMP_ECHO_HEADER_SIZE, data.len());
        let reply = send_echo_reply(lo, src, id, seq, payload);
        Some(IcmpEvent::EchoRequest { src, id, seq, reply })
    } else if header.icmp_type.0 == 0 {
        Some(IcmpEvent::EchoReply { src, id, seq })
    } else {
        Some(IcmpEvent::Unknown { src, icmp_type: header.icmp_type })
    }
}

} // verus!
