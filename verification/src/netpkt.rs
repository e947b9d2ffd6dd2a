//! VirtIO network packet framing.
//!
//! The queue plumbing of the network device is an outside collaborator; the
//! framing of an outgoing Ethernet frame into a fixed-size VirtIO buffer —
//! zeroed header, payload first, zero padding — is the part stated and
//! checked here.

use vstd::prelude::*;

verus! {

/// The largest Ethernet frame the device accepts.
pub const MAX_PACKET_SIZE: usize = 1514;

/// Feature bits the driver may negotiate with the network device.
#[derive(Clone, Copy, PartialEq, Eq, Structural, Debug)]
pub enum NetworkFeatureBits {
    VirtioNetFMac,
}

impl NetworkFeatureBits {
    /// The bit value of this feature flag.
    pub fn bits(&self) -> (r: u32)
        ensures
            *self == NetworkFeatureBits::VirtioNetFMac ==> r == 32,
    {
        match self {
            NetworkFeatureBits::VirtioNetFMac => 32,
        }
    }
}

/// The fixed VirtIO network header; all fields zero for the frames this
/// driver sends.
#[derive(Clone, Copy, PartialEq, Eq, Structural, Debug)]
pub struct VirtioNetHdr {
    pub flags: u8,
    pub gso_type: u8,
    pub hdr_len: u16,
    pub gso_size: u16,
    pub csum_start: u16,
    pub csum_offset: u16,
    pub num_buffers: u16,
}

impl VirtioNetHdr {
    /// The all-zero header.
    pub fn zeroed() -> (h: VirtioNetHdr)
        ensures
            h == (VirtioNetHdr {
                flags: 0u8,
                gso_type: 0u8,
                hdr_len: 0u16,
                gso_size: 0u16,
                csum_start: 0u16,
                csum_offset: 0u16,
                num_buffers: 0u16,
            }),
    {
        VirtioNetHdr {
            flags: 0,
            gso_type: 0,
            hdr_len: 0,
            gso_size: 0,
            csum_start: 0,
            csum_offset: 0,
            num_buffers: 0,
        }
    }
}

/// One VirtIO network buffer: the header followed by a fixed-size data
/// area.
#[derive(Debug)]
pub struct VirtioNetPacket {
    pub hdr: VirtioNetHdr,
    /// Exactly [`MAX_PACKET_SIZE`] bytes.
    pub data: Vec<u8>,
}

impl VirtioNetPacket {
    /// Well-formed: the data area has its fixed size.
    pub open spec fn wf(self) -> bool {
        self.data@.len() == MAX_PACKET_SIZE
    }
}

/// A six-byte Ethernet MAC address.
#[derive(Clone, Copy, PartialEq, Eq, Structural, Debug)]
pub struct MacAddr {
    pub b0: u8,
    pub b1: u8,
    pub b2: u8,
    pub b3: u8,
    pub b4: u8,
    pub b5: u8,
}

/// The network device handle: its negotiated MAC address. The queues
/// themselves belong to the device collaborator.
#[derive(Clone, Copy, PartialEq, Eq, Structural, Debug)]
pub struct VirtioNetwork {
    pub mac_addr: MacAddr,
}

/// Frames an outgoing Ethernet frame into a VirtIO buffer: zeroed header,
/// the frame first in the data area, zero padding after it.
pub fn frame_packet(value: &Vec<u8>) -> (pkt: VirtioNetPacket)
    requires
        value@.len() <= MAX_PACKET_SIZE,
    ensures
        pkt.wf(),
        pkt.hdr == (VirtioNetHdr {
            flags: 0u8,
            gso_type: 0u8,
            hdr_len: 0u16,
            gso_size: 0u16,
            csum_start: 0u16,
            csum_offset: 0u16,
            num_buffers: 0u16,
        }),
        pkt.data@.subrange(0, value@.len() as int) =~= value@,
        forall|i: int| value@.len() <= i < MAX_PACKET_SIZE ==> pkt.data@[i] == 0,
{
    let mut data: Vec<u8> = Vec::new();
    let n = value.len();
    let mut i: usize = 0;
    while i < n
        invariant
            i <= n,
            n == value@.len(),
            data@ =~= value@.take(i as int),
        decreases n - i,
    {
        data.push(value[i]);
        proof {
            assert(data@ =~= value@.take(i + 1));
        }
        i = i + 1;
    }
    proof {
        assert(data@ =~= value@);
    }
    while i < MAX_PACKET_SIZE
        invariant
            n <= i <= MAX_PACKET_SIZE,
            n == value@.len(),
            data@.len() == i,
            data@.subrange(0, n as int) =~= value@,
            forall|k: int| n <= k < i ==> data@[k] == 0,
        decreases MAX_PACKET_SIZE - i,
    {
        data.push(0);
        proof {
            assert(data@.subrange(0, n as int) =~= value@);
        }
        i = i + 1;
    }
    VirtioNetPacket { hdr: VirtioNetHdr::zeroed(), data }
}

/// Unframes a received VirtIO buffer: the data area as the delivered
/// frame, as the device driver hands it to the network stack.
pub fn packet_payload(pkt: &VirtioNetPacket) -> (r: Vec<u8>)
    ensures
        r@ =~= pkt.data@,
{
    let mut out: Vec<u8> = Vec::new();
    let n = pkt.data.len();
    let mut i: usize = 0;
    while i < n
        invariant
            i <= n,
            n == pkt.data@.len(),
            out@ =~= pkt.data@.take(i as int),
        decreases n - i,
    {
        out.push(pkt.data[i]);
        proof {
            assert(out@ =~= pkt.data@.take(i + 1));
        }
        i = i + 1;
    }
    proof {
        assert(out@ =~= pkt.data@);
    }
    out
}

} // verus!
