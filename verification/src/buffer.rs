//! Framed single-slot message channel.
//!
//! A channel is a fixed-size byte region: a reserved control area followed by
//! a payload area of `capacity` bytes.  At most one frame is live at a time; a
//! write overwrites whatever frame was stored before, and a read returns the
//! frame currently present without consuming it.  The wire format of a frame
//! is a 4-byte magic sentinel, a 2-byte message-kind tag and a 4-byte payload
//! length, all little-endian, followed by the raw payload bytes.
//!
//! The channel performs no synchronization of its own: when the backing
//! region is shared between processes, callers must enforce a single-writer /
//! single-reader discipline out of band.

use vstd::prelude::*;
use vstd::slice::*;

verus! {

/// Sentinel that marks a slot as holding a valid frame.
pub const MAGIC: u32 = 0xDEAD_BEEF;

/// Bytes of a serialized frame header: magic (4) + kind (2) + length (4).
pub const HEADER_SIZE: usize = 10;

/// Reserved control area at the start of a region (unused for now, kept for
/// future index/lock metadata).
pub const CONTROL_SIZE: usize = 64;

/// Message kind: ask the consumer to process a text.
pub const PROCESS_TEXT: u16 = 0x01;

/// Message kind: results produced for an earlier request.
pub const GET_RESULTS: u16 = 0x02;

/// Message kind: configuration update.
pub const CONFIGURE: u16 = 0x03;

/// Message kind: liveness probe.
pub const HEALTH_CHECK: u16 = 0x04;

/// Message kind: ask the consumer to stop.
pub const SHUTDOWN: u16 = 0xFF;

/// Errors of the channel layer.
#[derive(Clone, Copy, Debug, PartialEq, Eq, Structural)]
pub enum ChannelError {
    /// A backing region could not be allocated.
    AllocationError,
    /// No region of the given name exists.
    NotFoundError,
    /// The payload does not fit into the channel's payload area.
    PayloadTooLarge,
    /// The slot holds no well-formed frame (torn or never written).
    InvalidFrame,
}

/// Value of two little-endian bytes.
pub open spec fn le16(s: Seq<u8>) -> nat
    recommends
        s.len() == 2,
{
    (s[0] + 256 * s[1]) as nat
}

/// Value of four little-endian bytes.
pub open spec fn le32(s: Seq<u8>) -> nat
    recommends
        s.len() == 4,
{
    (s[0] + 256 * s[1] + 65536 * s[2] + 16777216 * s[3]) as nat
}

/// Little-endian image of a 16-bit value.
pub open spec fn u16_le(x: u16) -> Seq<u8> {
    seq![(x as nat % 256) as u8, (x as nat / 256 % 256) as u8]
}

/// Little-endian image of a 32-bit value.
pub open spec fn u32_le(x: u32) -> Seq<u8> {
    seq![
        (x as nat % 256) as u8,
        (x as nat / 256 % 256) as u8,
        (x as nat / 65536 % 256) as u8,
        (x as nat / 16777216 % 256) as u8,
    ]
}

/// Decoding inverts encoding for 16-bit values.
pub proof fn lemma_le16_round_trip(x: u16)
    ensures
        le16(u16_le(x)) == x,
{
    let n = x as nat;
    assert(n == 256 * (n / 256) + n % 256) by (nonlinear_arith);
    assert(n / 256 < 256) by (nonlinear_arith)
        requires
            n < 65536,
    ;
}

/// Decoding inverts encoding for 32-bit values.
pub proof fn lemma_le32_round_trip(x: u32)
    ensures
        le32(u32_le(x)) == x,
{
    let n = x as nat;
    assert(n == 256 * (n / 256) + n % 256) by (nonlinear_arith);
    assert(n / 256 == 256 * (n / 256 / 256) + n / 256 % 256) by (nonlinear_arith);
    assert(n / 256 / 256 == 256 * (n / 256 / 256 / 256) + n / 256 / 256 % 256) by (nonlinear_arith);
    assert(n / 256 / 256 == n / 65536) by (nonlinear_arith);
    assert(n / 256 / 256 / 256 == n / 16777216) by (nonlinear_arith);
    assert(n / 16777216 < 256) by (nonlinear_arith)
        requires
            n < 4294967296,
    ;
    assert(n / 16777216 % 256 == n / 16777216) by (nonlinear_arith)
        requires
            n / 16777216 < 256,
    ;
}

/// Emit the two little-endian bytes of a 16-bit value.
fn encode_u16(x: u16) -> (r: Vec<u8>)
    ensures
        r@ == u16_le(x),
{
    let mut r: Vec<u8> = Vec::new();
    r.push((x % 256) as u8);
    r.push((x / 256 % 256) as u8);
    assert(r@ =~= u16_le(x));
    r
}

/// Emit the four little-endian bytes of a 32-bit value.
fn encode_u32(x: u32) -> (r: Vec<u8>)
    ensures
        r@ == u32_le(x),
{
    let mut r: Vec<u8> = Vec::new();
    r.push((x % 256) as u8);
    r.push((x / 256 % 256) as u8);
    r.push((x / 65536 % 256) as u8);
    r.push((x / 16777216 % 256) as u8);
    assert(r@ =~= u32_le(x));
    r
}

/// Read two little-endian bytes as a 16-bit value.
fn decode_u16(s: &[u8]) -> (r: u16)
    requires
        s@.len() == 2,
    ensures
        r == le16(s@),
{
    let b0 = *slice_index_get(s, 0) as u16;
    let b1 = *slice_index_get(s, 1) as u16;
    b0 + 256 * b1
}

/// Read four little-endian bytes as a 32-bit value.
fn decode_u32(s: &[u8]) -> (r: u32)
    requires
        s@.len() == 4,
    ensures
        r == le32(s@),
{
    let b0 = *slice_index_get(s, 0) as u32;
    let b1 = *slice_index_get(s, 1) as u32;
    let b2 = *slice_index_get(s, 2) as u32;
    let b3 = *slice_index_get(s, 3) as u32;
    b0 + 256 * b1 + 65536 * b2 + 16777216 * b3
}

/// Byte image of one frame: header followed by the payload.
pub open spec fn spec_frame_bytes(kind: u16, payload: Seq<u8>) -> Seq<u8> {
    u32_le(MAGIC) + u16_le(kind) + u32_le(payload.len() as u32) + payload
}

/// The region after a frame is written: the control area and the bytes past
/// the frame are untouched, the frame image overwrites the slot.
pub open spec fn spec_write_region(region: Seq<u8>, kind: u16, payload: Seq<u8>) -> Seq<u8> {
    let frame = spec_frame_bytes(kind, payload);
    region.take(CONTROL_SIZE as int) + frame + region.skip(CONTROL_SIZE + frame.len())
}

/// The frame currently stored in a region, if the slot holds a well-formed
/// one: the magic must match and the recorded payload length must fit the
/// payload area.
pub open spec fn spec_read_region(region: Seq<u8>, capacity: nat) -> Option<(u16, Seq<u8>)> {
    if capacity < HEADER_SIZE {
        None
    } else {
        let magic = le32(region.subrange(64, 68));
        let kind = le16(region.subrange(68, 70));
        let len = le32(region.subrange(70, 74));
        if magic == MAGIC && HEADER_SIZE + len <= capacity {
            Some(((kind as u16), region.subrange(74, 74 + len as int)))
        } else {
            None
        }
    }
}

/// One framed mailbox over an in-process byte region.  The same layout is
/// used when the region lives in shared memory; the unsafe region access then
/// sits outside this crate and only stores and fetches the byte images that
/// [`spec_write_region`] and [`spec_read_region`] describe.
pub struct Channel {
    /// The backing region: control area followed by the payload area.
    pub region: Vec<u8>,
    /// Size of the payload area in bytes.
    pub capacity: usize,
}

impl Channel {
    /// The region is exactly control area plus payload area, and the payload
    /// length always fits the frame header's 32-bit length field.
    pub open spec fn wf(&self) -> bool {
        &&& self.region@.len() == CONTROL_SIZE + self.capacity
        &&& self.capacity <= u32::MAX
    }

    /// A fresh channel: an all-zero region, whose slot holds no frame.
    pub fn new(capacity: usize) -> (r: Channel)
        requires
            capacity <= u32::MAX,
            CONTROL_SIZE + capacity <= usize::MAX,
        ensures
            r.wf(),
            r.capacity == capacity,
            spec_read_region(r.region@, capacity as nat) is None,
    {
        let mut region: Vec<u8> = Vec::new();
        let total = CONTROL_SIZE + capacity;
        let mut i: usize = 0;
        while i < total
            invariant
                region@.len() == i,
                i <= total,
                forall|j: int| 0 <= j < i ==> region@[j] == 0u8,
            decreases total - i,
        {
            region.push(0u8);
            i += 1;
        }
        let r = Channel { region, capacity };
        proof {
            if capacity >= HEADER_SIZE {
                assert(le32(r.region@.subrange(64, 68)) == 0);
            }
        }
        r
    }

    /// Serialize a frame into the slot, overwriting any prior frame.  Fails
    /// with `PayloadTooLarge` exactly when the payload plus its header does
    /// not fit the payload area; on success the stored frame is the given one
    /// and the rest of the region is untouched.
    pub fn write(&mut self, kind: u16, payload: &[u8]) -> (r: Result<(), ChannelError>)
        requires
            old(self).wf(),
        ensures
            final(self).wf(),
            final(self).capacity == old(self).capacity,
            payload@.len() + HEADER_SIZE > old(self).capacity ==> r == Err::<
                (),
                ChannelError,
            >(ChannelError::PayloadTooLarge) && *final(self) == *old(self),
            payload@.len() + HEADER_SIZE <= old(self).capacity ==> r == Ok::<
                (),
                ChannelError,
            >(()) && final(self).region@ == spec_write_region(old(self).region@, kind, payload@),
            payload@.len() + HEADER_SIZE <= old(self).capacity ==> spec_read_region(
                final(self).region@,
                old(self).capacity as nat,
            ) == Some((kind, payload@)),
    {
        if self.capacity < HEADER_SIZE || payload.len() > self.capacity - HEADER_SIZE {
            return Err(ChannelError::PayloadTooLarge);
        }
        let ghost old_region = self.region@;
        let frame_len = HEADER_SIZE + payload.len();

        let mut out: Vec<u8> = Vec::new();
        let mut i: usize = 0;
        while i < CONTROL_SIZE
            invariant
                old(self).wf(),
                self == old(self),
                i <= CONTROL_SIZE,
                out@ =~= old_region.take(i as int),
                old_region == self.region@,
            decreases CONTROL_SIZE - i,
        {
            let b = self.region[i];
            out.push(b);
            i += 1;
        }
        let mut magic_bytes = encode_u32(MAGIC);
        let mut kind_bytes = encode_u16(kind);
        let mut len_bytes = encode_u32(payload.len() as u32);
        out.append(&mut magic_bytes);
        out.append(&mut kind_bytes);
        out.append(&mut len_bytes);
        let mut body = slice_to_vec(payload);
        out.append(&mut body);
        assert(out@ =~= old_region.take(CONTROL_SIZE as int) + spec_frame_bytes(kind, payload@));

        let region_len = self.region.len();
        assert(CONTROL_SIZE + frame_len <= region_len);
        let mut i: usize = CONTROL_SIZE + frame_len;
        while i < self.region.len()
            invariant
                old(self).wf(),
                self == old(self),
                old_region == self.region@,
                CONTROL_SIZE + frame_len <= i <= self.region@.len(),
                out@ =~= old_region.take(CONTROL_SIZE as int) + spec_frame_bytes(kind, payload@)
                    + old_region.subrange(CONTROL_SIZE + frame_len, i as int),
            decreases self.region@.len() - i,
        {
            let b = self.region[i];
            out.push(b);
            i += 1;
        }
        assert(out@ =~= spec_write_region(old_region, kind, payload@));
        self.region = out;
        proof {
            lemma_frame_round_trip(old_region, self.capacity as nat, kind, payload@);
        }
        Ok(())
    }

    /// Decode whatever frame is currently present.  Fails with `InvalidFrame`
    /// exactly when the slot holds no well-formed frame; reading does not
    /// consume the slot, so repeated reads return the same frame until the
    /// next write.
    pub fn read(&self) -> (r: Result<(u16, Vec<u8>), ChannelError>)
        requires
            self.wf(),
        ensures
            match r {
                Ok(p) => spec_read_region(self.region@, self.capacity as nat) == Some((p.0, p.1@)),
                Err(e) => e == ChannelError::InvalidFrame && spec_read_region(
                    self.region@,
                    self.capacity as nat,
                ) is None,
            },
    {
        if self.capacity < HEADER_SIZE {
            return Err(ChannelError::InvalidFrame);
        }
        let s = self.region.as_slice();
        let magic = decode_u32(slice_subrange(s, 64, 68));
        if magic != MAGIC {
            return Err(ChannelError::InvalidFrame);
        }
        let kind = decode_u16(slice_subrange(s, 68, 70));
        let len_u32 = decode_u32(slice_subrange(s, 70, 74));
        let len = len_u32 as usize;
        if len > self.capacity - HEADER_SIZE {
            return Err(ChannelError::InvalidFrame);
        }
        let region_len = self.region.len();
        assert(74 + len <= region_len);
        let payload = slice_to_vec(slice_subrange(s, 74, 74 + len));
        Ok((kind, payload))
    }
}

/// Round trip: writing any frame that fits and then decoding the region
/// yields exactly the written kind and payload.
pub proof fn lemma_frame_round_trip(region: Seq<u8>, capacity: nat, kind: u16, payload: Seq<u8>)
    requires
        region.len() == CONTROL_SIZE + capacity,
        payload.len() + HEADER_SIZE <= capacity,
        capacity <= u32::MAX,
    ensures
        spec_read_region(spec_write_region(region, kind, payload), capacity) == Some(
            (kind, payload),
        ),
{
    lemma_le32_round_trip(MAGIC);
    lemma_le16_round_trip(kind);
    lemma_le32_round_trip(payload.len() as u32);
    let r = spec_write_region(region, kind, payload);
    assert(r.subrange(64, 68) =~= u32_le(MAGIC));
    assert(r.subrange(68, 70) =~= u16_le(kind));
    assert(r.subrange(70, 74) =~= u32_le(payload.len() as u32));
    assert(r.subrange(74, 74 + payload.len() as int) =~= payload);
}

} // verus!
