//! The libudev monitor framing of kobject uevents: a 40-byte header followed
//! by NUL-separated `key=value` properties.

use vstd::prelude::*;
use vstd::utf8::encode_utf8;
use crate::bytes::{le_bytes, push_le};
use crate::event_store::{props_view, Properties};

verus! {

/// The netlink group of udev monitor messages.
pub const UDEV_EVENT_MODE: u32 = 2;
pub const UDEV_MONITOR_MAGIC: u32 = 0xfeedcafe;
/// The largest message, header included.
pub const MAX_NETLINK_PAYLOAD: usize = 65536;
/// Size of the monitor header.
pub const MONITOR_HEADER_SIZE: u32 = 40;

pub const MURMUR_M: u32 = 0x5bd1e995;

/// The libudev monitor header, its fields as values; `to_bytes` lays them out.
#[derive(Clone, Copy, Debug)]
pub struct MonitorNetlinkHeader {
    pub prefix: [u8; 8],
    pub magic: u32,
    pub header_size: u32,
    pub properties_off: u32,
    pub properties_len: u32,
    pub filter_subsystem_hash: u32,
    pub filter_devtype_hash: u32,
    pub filter_tag_bloom_hi: u32,
    pub filter_tag_bloom_lo: u32,
}

/// One mixing round of MurmurHash2 over the four-byte block `k`.
pub open spec fn murmur_mix(h: u32, k: u32) -> u32 {
    let k1 = k.wrapping_mul(MURMUR_M);
    let k2 = k1 ^ (k1 >> 24u32);
    let k3 = k2.wrapping_mul(MURMUR_M);
    h.wrapping_mul(MURMUR_M) ^ k3
}

/// The little-endian block at `i`.
pub open spec fn block_at(data: Seq<u8>, i: int) -> u32 {
    (data[i] as u32) | ((data[i + 1] as u32) << 8u32) | ((data[i + 2] as u32) << 16u32) | ((
    data[i + 3] as u32) << 24u32)
}

/// The hash after the first `n` four-byte blocks.
pub open spec fn murmur_blocks(data: Seq<u8>, n: nat) -> u32
    decreases n,
{
    if n == 0 {
        data.len() as u32
    } else {
        murmur_mix(murmur_blocks(data, (n - 1) as nat), block_at(data, 4 * (n - 1)))
    }
}

/// The hash after the bytes that do not fill a block.
pub open spec fn murmur_tail(data: Seq<u8>, h: u32) -> u32 {
    let base: int = 4 * (data.len() / 4) as int;
    let rem = data.len() % 4;
    let h1 = if rem == 3 {
        h ^ ((data[base + 2] as u32) << 16u32)
    } else {
        h
    };
    let h2 = if rem >= 2 {
        h1 ^ ((data[base + 1] as u32) << 8u32)
    } else {
        h1
    };
    if rem >= 1 {
        (h2 ^ (data[base] as u32)).wrapping_mul(MURMUR_M)
    } else {
        h2
    }
}

/// MurmurHash2 with seed 0, as libudev hashes subsystem and device type names.
pub open spec fn murmur2(data: Seq<u8>) -> u32 {
    let h = murmur_tail(data, murmur_blocks(data, data.len() / 4));
    let h1 = h ^ (h >> 13u32);
    let h2 = h1.wrapping_mul(MURMUR_M);
    h2 ^ (h2 >> 15u32)
}

/// The libudev filter hash of a name: MurmurHash2 of its UTF-8 bytes.
pub fn string_hash32(s: &str) -> (r: u32)
    requires
        s@.len() <= u32::MAX,
    ensures
        r == murmur2(encode_utf8(s@)),
{
    let data = s.as_bytes();
    let ghost d = data@;
    assert(d == encode_utf8(s@));
    let len = data.len();
    let nblocks = len / 4;
    let mut h: u32 = len as u32;
    let mut i: usize = 0;
    while i < nblocks
        invariant
            i <= nblocks,
            nblocks == len / 4,
            len == d.len(),
            data@ == d,
            h == murmur_blocks(d, i as nat),
        decreases nblocks - i,
    {
        let b = 4 * i;
        let k: u32 = (data[b] as u32) | ((data[b + 1] as u32) << 8u32) | ((data[b + 2] as u32)
            << 16u32) | ((data[b + 3] as u32) << 24u32);
        let k1 = k.wrapping_mul(MURMUR_M);
        let k2 = k1 ^ (k1 >> 24u32);
        let k3 = k2.wrapping_mul(MURMUR_M);
        h = h.wrapping_mul(MURMUR_M) ^ k3;
        i = i + 1;
    }
    let base = 4 * nblocks;
    let rem = len % 4;
    if rem == 3 {
        h = h ^ ((data[base + 2] as u32) << 16u32);
    }
    if rem >= 2 {
        h = h ^ ((data[base + 1] as u32) << 8u32);
    }
    if rem >= 1 {
        h = (h ^ (data[base] as u32)).wrapping_mul(MURMUR_M);
    }
    h = h ^ (h >> 13u32);
    h = h.wrapping_mul(MURMUR_M);
    h ^ (h >> 15u32)
}

pub open spec fn opt_hash(s: Option<Seq<char>>) -> u32 {
    match s {
        Some(t) => murmur2(encode_utf8(t)),
        None => 0,
    }
}

pub open spec fn opt_view(s: Option<&str>) -> Option<Seq<char>> {
    match s {
        Some(t) => Some(t@),
        None => None,
    }
}

pub open spec fn udev_prefix() -> Seq<u8> {
    seq![0x6cu8, 0x69, 0x62, 0x75, 0x64, 0x65, 0x76, 0x00]
}

impl MonitorNetlinkHeader {
    /// The header for `properties_len` bytes of properties, with filter
    /// hashes for the subsystem and device type where given.
    pub fn new(properties_len: usize, subsystem: Option<&str>, devtype: Option<&str>) -> (r: Self)
        requires
            subsystem matches Some(s) ==> s@.len() <= u32::MAX,
            devtype matches Some(d) ==> d@.len() <= u32::MAX,
        ensures
            r.prefix@ == udev_prefix(),
            r.magic == UDEV_MONITOR_MAGIC,
            r.header_size == MONITOR_HEADER_SIZE,
            r.properties_off == MONITOR_HEADER_SIZE,
            r.properties_len == properties_len as u32,
            r.filter_subsystem_hash == opt_hash(opt_view(subsystem)),
            r.filter_devtype_hash == opt_hash(opt_view(devtype)),
            r.filter_tag_bloom_hi == 0,
            r.filter_tag_bloom_lo == 0,
    {
        let prefix: [u8; 8] = [0x6c, 0x69, 0x62, 0x75, 0x64, 0x65, 0x76, 0x00];
        assert(prefix@ =~= udev_prefix());
        let subsystem_hash = match subsystem {
            Some(s) => string_hash32(s),
            None => 0,
        };
        let devtype_hash = match devtype {
            Some(d) => string_hash32(d),
            None => 0,
        };
        MonitorNetlinkHeader {
            prefix,
            magic: UDEV_MONITOR_MAGIC,
            header_size: MONITOR_HEADER_SIZE,
            properties_off: MONITOR_HEADER_SIZE,
            properties_len: properties_len as u32,
            filter_subsystem_hash: subsystem_hash,
            filter_devtype_hash: devtype_hash,
            filter_tag_bloom_hi: 0,
            filter_tag_bloom_lo: 0,
        }
    }

    /// The 40 bytes of the header: the prefix, then the magic and the two
    /// filter hashes big-endian and the other fields little-endian.
    pub fn to_bytes(&self) -> (r: Vec<u8>)
        ensures
            r@ == header_bytes(*self),
    {
        let mut out: Vec<u8> = Vec::new();
        let mut i: usize = 0;
        while i < 8
            invariant
                i <= 8,
                out@ == self.prefix@.subrange(0, i as int),
            decreases 8 - i,
        {
            out.push(self.prefix[i]);
            i = i + 1;
            assert(out@ =~= self.prefix@.subrange(0, i as int));
        }
        push_be32(&mut out, self.magic);
        push_le(&mut out, self.header_size as u64, 4);
        push_le(&mut out, self.properties_off as u64, 4);
        push_le(&mut out, self.properties_len as u64, 4);
        push_be32(&mut out, self.filter_subsystem_hash);
        push_be32(&mut out, self.filter_devtype_hash);
        push_le(&mut out, self.filter_tag_bloom_hi as u64, 4);
        push_le(&mut out, self.filter_tag_bloom_lo as u64, 4);
        assert(out@ =~= header_bytes(*self));
        out
    }
}

/// Four bytes of `v`, most significant first.
pub open spec fn be32(v: u32) -> Seq<u8> {
    seq![(v / 0x100_0000) as u8, ((v / 0x1_0000) % 256) as u8, ((v / 0x100) % 256) as u8, (v % 256) as u8]
}

pub open spec fn header_bytes(h: MonitorNetlinkHeader) -> Seq<u8> {
    h.prefix@ + be32(h.magic) + le_bytes(h.header_size as nat, 4) + le_bytes(
        h.properties_off as nat,
        4,
    ) + le_bytes(h.properties_len as nat, 4) + be32(h.filter_subsystem_hash) + be32(
        h.filter_devtype_hash,
    ) + le_bytes(h.filter_tag_bloom_hi as nat, 4) + le_bytes(h.filter_tag_bloom_lo as nat, 4)
}

fn push_be32(out: &mut Vec<u8>, v: u32)
    ensures
        final(out)@ == old(out)@ + be32(v),
{
    out.push((v / 0x100_0000) as u8);
    out.push(((v / 0x1_0000) % 256) as u8);
    out.push(((v / 0x100) % 256) as u8);
    out.push((v % 256) as u8);
    assert(final(out)@ =~= old(out)@ + be32(v));
}

/// The payload of a property list: `key=value` and a NUL for each property.
pub open spec fn payload_of(ps: Seq<(Seq<char>, Seq<char>)>) -> Seq<u8>
    decreases ps.len(),
{
    if ps.len() == 0 {
        Seq::empty()
    } else {
        payload_of(ps.drop_last()) + encode_utf8(ps.last().0) + seq![0x3du8] + encode_utf8(
            ps.last().1,
        ) + seq![0u8]
    }
}

fn push_bytes(out: &mut Vec<u8>, b: &[u8])
    ensures
        final(out)@ == old(out)@ + b@,
{
    let mut i: usize = 0;
    while i < b.len()
        invariant
            i <= b@.len(),
            out@ == old(out)@ + b@.subrange(0, i as int),
        decreases b@.len() - i,
    {
        out.push(b[i]);
        i = i + 1;
        assert(out@ =~= old(out)@ + b@.subrange(0, i as int));
    }
    assert(b@.subrange(0, i as int) =~= b@);
}

/// Encodes a property list as a monitor payload.
pub fn encode_properties(props: &Properties) -> (r: Vec<u8>)
    ensures
        r@ == payload_of(props_view(props@)),
{
    let mut out: Vec<u8> = Vec::new();
    let mut i: usize = 0;
    while i < props.len()
        invariant
            i <= props@.len(),
            out@ == payload_of(props_view(props@).subrange(0, i as int)),
        decreases props@.len() - i,
    {
        let (k, v) = &props[i];
        let ghost before = out@;
        push_bytes(&mut out, k.as_str().as_bytes());
        out.push(0x3d);
        push_bytes(&mut out, v.as_str().as_bytes());
        out.push(0);
        proof {
            let pv = props_view(props@);
            assert(pv.subrange(0, i + 1).drop_last() =~= pv.subrange(0, i as int));
            assert(pv.subrange(0, i + 1).last() == (k@, v@));
            assert(out@ =~= before + encode_utf8(k@) + seq![0x3du8] + encode_utf8(v@) + seq![0u8]);
        }
        i = i + 1;
    }
    assert(props_view(props@).subrange(0, i as int) =~= props_view(props@));
    out
}

/// Why a message could not be framed.
#[derive(Clone, Copy, Debug, PartialEq, Eq, Structural)]
pub enum NetlinkError {
    /// Header and payload together exceed 64 KiB.
    TooLarge,
}

pub open spec fn input_subsystem() -> Seq<char> {
    "input"@
}

/// The header of a message of `len` payload bytes for the `input` subsystem.
pub open spec fn input_header_bytes(len: nat) -> Seq<u8> {
    udev_prefix() + be32(UDEV_MONITOR_MAGIC) + le_bytes(MONITOR_HEADER_SIZE as nat, 4) + le_bytes(
        MONITOR_HEADER_SIZE as nat,
        4,
    ) + le_bytes(len as u32 as nat, 4) + be32(murmur2(encode_utf8(input_subsystem()))) + be32(0)
        + le_bytes(0, 4) + le_bytes(0, 4)
}

/// Frames a property list as one udev monitor message for the `input`
/// subsystem: the header, then the payload. Refused when header and payload
/// together exceed 64 KiB.
pub fn udev_monitor_message(props: &Properties) -> (r: Result<Vec<u8>, NetlinkError>)
    ensures
        payload_of(props_view(props@)).len() + MONITOR_HEADER_SIZE > MAX_NETLINK_PAYLOAD <==> r is Err,
        r matches Ok(m) ==> m@ == input_header_bytes(payload_of(props_view(props@)).len())
            + payload_of(props_view(props@)),
{
    let payload = encode_properties(props);
    if payload.len() > MAX_NETLINK_PAYLOAD - 40 {
        return Err(NetlinkError::TooLarge);
    }
    proof {
        reveal_strlit("input");
    }
    let header = MonitorNetlinkHeader::new(payload.len(), Some("input"), None);
    let mut message = header.to_bytes();
    assert(message@ =~= input_header_bytes(payload@.len()));
    push_bytes(&mut message, payload.as_slice());
    Ok(message)
}

} // verus!
