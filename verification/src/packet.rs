//! Packets: a destination prelude, a two-byte frame-count field, and a
//! payload laid out across fixed 32-byte frames.

use vstd::prelude::*;

use crate::address::{
    first_terminator, lemma_route_decode, nibble_of, route_byte, route_prelude_len,
    valid_hops, Address, LocalAddress,
};

verus! {

use vstd::std_specs::cmp::PartialEqSpec;

/// A frame is a 32-byte window of data, the atomic transport unit.
pub type Frame = [u8; 32];

/// Failure while building or parsing a packet.
#[derive(Debug, PartialEq, Eq, Clone, Copy)]
pub enum PackError {
    /// The packet would span more frames than the two-byte frame-count
    /// field can hold.
    NotEnoughSpace,
    /// A received first frame's address prelude cannot be decoded.
    MalformedAddress,
    /// Fewer frames were supplied than the packet declares.
    TruncatedInput,
}

/// Serialization capability a payload type supplies: the value packs
/// itself into a fixed number of bytes.
pub trait Pack<const SIZE: usize>: Sized {
    /// The byte sequence this value serializes to.
    spec fn spec_pack(self) -> Seq<u8>;

    /// Serialize this value into its fixed-size byte array.
    fn pack(self) -> (r: [u8; SIZE])
        ensures
            r@ == self.spec_pack(),
    ;
}

/// Reconstruction capability a payload type supplies: the address and
/// the value are recovered from the frames of one packet.
pub trait Unpack: Sized {
    /// Decipher the address and the data from a slice of frames.
    fn unpack(data: &[Frame]) -> (Address, Self);
}

/// Number of 32-byte frames a packet of `total_bytes` bytes occupies:
/// the last frame is zero-padded rather than shared.
pub open spec fn spec_total_frames(total_bytes: int) -> int {
    (total_bytes + 31) / 32
}

/// A packet to be sent over the network: the first frame already holds
/// the address prelude and the two-byte frame-count field, and the
/// payload is laid out across frames by `pack_payload`.
pub struct Packet<Data: Pack<SIZE>, const SIZE: usize> {
    first_packet: Frame,
    prelude_length: usize,
    pub data: Data,
}

impl<Data: Pack<SIZE>, const SIZE: usize> Packet<Data, SIZE> {
    /// The bytes of the first frame, as far as the constructors filled
    /// it: prelude, frame-count field, zeros.
    pub closed spec fn spec_first(&self) -> Seq<u8> {
        self.first_packet@
    }

    /// The payload value carried by this packet.
    pub closed spec fn spec_data(&self) -> Data {
        self.data
    }

    /// Bytes of the first frame the header occupies: the prelude plus
    /// the two-byte frame-count field.
    pub closed spec fn spec_prelude_length(&self) -> int {
        self.prelude_length as int
    }

    /// Internal invariant: the header fits the first frame, the packet
    /// fits the two-byte frame-count field, and everything after the
    /// header is still zero.
    pub open spec fn wf(&self) -> bool {
        &&& 3 <= self.spec_prelude_length() <= 32
        &&& spec_total_frames(self.spec_prelude_length() + SIZE) <= 65535
        &&& forall|j: int|
            self.spec_prelude_length() <= j < 32 ==> self.spec_first()[j] == 0
    }

    /// Write the frame-count field after the prelude and assemble the
    /// packet; fail if the packet would span more frames than the
    /// two-byte field can hold.
    fn from_address(address: Address, data: Data) -> (r: Result<Self, PackError>)
        requires
            address.wf(),
            address.spec_prelude_len() <= 30,
        ensures
            match r {
                Ok(p) => {
                    let plen = address.spec_prelude_len();
                    let frames = spec_total_frames(plen + 2 + SIZE);
                    &&& p.wf()
                    &&& p.spec_data() == data
                    &&& p.spec_prelude_length() == plen + 2
                    &&& forall|i: int|
                        0 <= i < plen ==> #[trigger] p.spec_first()[i]
                            == address.spec_prelude_byte(i)
                    &&& p.spec_first()[plen] == frames / 256
                    &&& p.spec_first()[plen + 1] == frames % 256
                    &&& forall|i: int| plen + 2 <= i < 32 ==> p.spec_first()[i] == 0
                    &&& frames <= 65535
                },
                Err(e) => {
                    &&& e == PackError::NotEnoughSpace
                    &&& spec_total_frames(address.spec_prelude_len() + 2 + SIZE) > 65535
                },
            },
    {
        let (mut first_packet, prelude_length) = address.to_first_packet();

        if SIZE > 2097120 - (prelude_length + 2) {
            return Err(PackError::NotEnoughSpace);
        }
        let total_frames: usize = (prelude_length + 2 + SIZE + 31) / 32;

        first_packet[prelude_length] = (total_frames / 256) as u8;
        first_packet[prelude_length + 1] = (total_frames % 256) as u8;

        Ok(Packet { first_packet, prelude_length: prelude_length + 2, data })
    }

    /// Create a packet with the given data addressed to the node's
    /// parent.
    pub fn to_parent(data: Data) -> (r: Result<Self, PackError>)
        ensures
            match r {
                Ok(p) => {
                    let frames = spec_total_frames(3 + SIZE);
                    &&& p.wf()
                    &&& p.spec_data() == data
                    &&& p.spec_prelude_length() == 3
                    &&& p.spec_first()[0] == 0xA0
                    &&& p.spec_first()[1] == frames / 256
                    &&& p.spec_first()[2] == frames % 256
                    &&& forall|i: int| 3 <= i < 32 ==> p.spec_first()[i] == 0
                    &&& frames <= 65535
                },
                Err(e) => {
                    &&& e == PackError::NotEnoughSpace
                    &&& spec_total_frames(3 + SIZE) > 65535
                },
            },
    {
        Self::from_address(Address::Local(LocalAddress::ToParent), data)
    }

    /// Create a packet with the given data addressed to the node's
    /// child.
    pub fn to_child(data: Data) -> (r: Result<Self, PackError>)
        ensures
            match r {
                Ok(p) => {
                    let frames = spec_total_frames(3 + SIZE);
                    &&& p.wf()
                    &&& p.spec_data() == data
                    &&& p.spec_prelude_length() == 3
                    &&& p.spec_first()[0] == 0x90
                    &&& p.spec_first()[1] == frames / 256
                    &&& p.spec_first()[2] == frames % 256
                    &&& forall|i: int| 3 <= i < 32 ==> p.spec_first()[i] == 0
                    &&& frames <= 65535
                },
                Err(e) => {
                    &&& e == PackError::NotEnoughSpace
                    &&& spec_total_frames(3 + SIZE) > 65535
                },
            },
    {
        Self::from_address(Address::Local(LocalAddress::ToChild), data)
    }

    /// Create a packet with the given routed address, most-significant
    /// hop first in both paths.
    ///
    /// The paths may hold at most 58 hops together: the packed prelude
    /// must leave the first frame room for the two-byte frame-count
    /// field.
    pub fn to_address(from: &[u8], to: &[u8], data: Data) -> (r: Result<Self, PackError>)
        requires
            valid_hops(from@),
            valid_hops(to@),
            from@.len() + to@.len() <= 58,
        ensures
            match r {
                Ok(p) => {
                    let plen = route_prelude_len(from@, to@);
                    let frames = spec_total_frames(plen + 2 + SIZE);
                    &&& p.wf()
                    &&& p.spec_data() == data
                    &&& p.spec_prelude_length() == plen + 2
                    &&& forall|i: int|
                        0 <= i < plen ==> p.spec_first()[i] == route_byte(from@, to@, i)
                    &&& p.spec_first()[plen] == frames / 256
                    &&& p.spec_first()[plen + 1] == frames % 256
                    &&& forall|i: int| plen + 2 <= i < 32 ==> p.spec_first()[i] == 0
                    &&& frames <= 65535
                },
                Err(e) => {
                    &&& e == PackError::NotEnoughSpace
                    &&& spec_total_frames(route_prelude_len(from@, to@) + 2 + SIZE) > 65535
                },
            },
    {
        let from_vec = vstd::slice::slice_to_vec(from);
        let to_vec = vstd::slice::slice_to_vec(to);
        Self::from_address(Address::Network { from: from_vec, to: to_vec }, data)
    }
}

/// Byte `j` of the full packet byte stream: the header bytes of the
/// first frame, then the serialized payload, then zero padding to the
/// end of the last frame.
pub open spec fn spec_packet_byte(
    first: Seq<u8>,
    header_len: int,
    payload: Seq<u8>,
    j: int,
) -> u8 {
    if 0 <= j < header_len {
        first[j]
    } else if header_len <= j < header_len + payload.len() {
        payload[j - header_len]
    } else {
        0
    }
}

impl<Data: Pack<SIZE>, const SIZE: usize> Packet<Data, SIZE> {
    /// Serialize the payload and lay the packet out across its frames:
    /// the header and the leading payload bytes fill the first frame,
    /// full frames follow, and the last frame is zero-padded.
    ///
    /// Frame `i`, byte `k` of the result is byte `32 * i + k` of the
    /// packet byte stream, so concatenating the frames reproduces the
    /// header, the whole serialized payload, and the padding, in order.
    pub fn pack_payload(self) -> (r: Result<Vec<Frame>, PackError>)
        requires
            self.wf(),
        ensures
            ({
                let total = spec_total_frames(self.spec_prelude_length() + SIZE);
                &&& r matches Ok(frames)
                &&& frames@.len() == total
                &&& self.spec_data().spec_pack().len() == SIZE
                &&& 32 * total >= self.spec_prelude_length() + SIZE
                &&& forall|i: int, k: int|
                    0 <= i < total && 0 <= k < 32 ==> #[trigger] frames@[i]@[k]
                        == spec_packet_byte(
                        self.spec_first(),
                        self.spec_prelude_length(),
                        self.spec_data().spec_pack(),
                        32 * i + k,
                    )
            }),
    {
        let Packet { first_packet, prelude_length, data } = self;
        let data_bytes = data.pack();

        let total_frames: usize = (prelude_length + SIZE + 31) / 32;
        let mut frames: Vec<Frame> = Vec::new();
        let mut i: usize = 0;
        while i < total_frames
            invariant
                i <= total_frames,
                total_frames == spec_total_frames(prelude_length + SIZE),
                total_frames <= 65535,
                3 <= prelude_length <= 32,
                first_packet@ == self.spec_first(),
                prelude_length == self.spec_prelude_length(),
                data_bytes@ == self.spec_data().spec_pack(),
                data_bytes@.len() == SIZE,
                frames@.len() == i,
                forall|a: int, k: int|
                    0 <= a < i && 0 <= k < 32 ==> #[trigger] frames@[a]@[k]
                        == spec_packet_byte(
                        first_packet@,
                        prelude_length as int,
                        data_bytes@,
                        32 * a + k,
                    ),
            decreases total_frames - i,
        {
            let mut buf: Frame = [0u8; 32];
            let mut k: usize = 0;
            while k < 32
                invariant
                    k <= 32,
                    i < total_frames,
                    total_frames <= 65535,
                    3 <= prelude_length <= 32,
                    data_bytes@.len() == SIZE,
                    prelude_length + SIZE <= 2097120,
                    forall|m: int|
                        0 <= m < k ==> #[trigger] buf@[m] == spec_packet_byte(
                            first_packet@,
                            prelude_length as int,
                            data_bytes@,
                            32 * i + m,
                        ),
                    forall|m: int| k <= m < 32 ==> buf@[m] == 0,
                decreases 32 - k,
            {
                let j = 32 * i + k;
                if j < prelude_length {
                    buf[k] = first_packet[j];
                } else if j < prelude_length + SIZE {
                    buf[k] = data_bytes[j - prelude_length];
                }
                k += 1;
            }
            frames.push(buf);
            i += 1;
        }

        Ok(frames)
    }
}

/// Byte `j` of a received frame sequence, frames concatenated in order.
pub open spec fn spec_stream_byte(frames: Seq<Frame>, j: int) -> u8 {
    frames[j / 32]@[j % 32]
}

/// What reading the payload window after a header of `plen` prelude
/// bytes promises: when the frame-count field cannot be read the frame
/// is malformed; when fewer frames came than the field declares, or
/// than the window needs, the input is truncated; otherwise the window
/// is exactly the `size` bytes following the header.
pub open spec fn window_post(
    frames: Seq<Frame>,
    size: int,
    plen: int,
    r: Result<(Address, Vec<u8>), PackError>,
) -> bool {
    if plen > 30 {
        r matches Err(e) && e == PackError::MalformedAddress
    } else {
        let declared = frames[0]@[plen] * 256 + frames[0]@[plen + 1];
        if frames.len() < declared || frames.len() < spec_total_frames(plen + 2 + size) {
            r matches Err(e) && e == PackError::TruncatedInput
        } else {
            &&& r matches Ok((a, out))
            &&& out@.len() == size
            &&& forall|m: int|
                0 <= m < size ==> #[trigger] out@[m] == spec_stream_byte(
                    frames,
                    plen + 2 + m,
                )
        }
    }
}

/// Everything parsing a received packet promises, as one predicate over
/// the frames: which destination comes out of the first frame, exactly
/// when parsing fails, and that the returned window is the payload's
/// bytes.
pub open spec fn unpack_post(
    frames: Seq<Frame>,
    size: int,
    r: Result<(Address, Vec<u8>), PackError>,
) -> bool {
    if frames.len() == 0 {
        r matches Err(e) && e == PackError::TruncatedInput
    } else {
        let bytes = frames[0]@;
        if bytes[0] == 0xA0 || bytes[0] == 0x90 {
            &&& window_post(frames, size, 1, r)
            &&& (r matches Ok((a, out)) ==> a == Address::Local(
                if bytes[0] == 0xA0 {
                    LocalAddress::ToParent
                } else {
                    LocalAddress::ToChild
                },
            ))
        } else {
            let f = first_terminator(bytes, 0);
            let j = first_terminator(bytes, f + 1);
            if f == 64 || j == 64 {
                r matches Err(e) && e == PackError::MalformedAddress
            } else {
                &&& window_post(frames, size, (j + 2) / 2, r)
                &&& (r matches Ok((a, out)) ==> (a matches Address::Network { from, to }
                    && from@ == Seq::new(f as nat, |k: int| nibble_of(bytes, k))
                    && to@ == Seq::new(
                    (j - f - 1) as nat,
                    |k: int| nibble_of(bytes, f + 1 + k),
                )))
            }
        }
    }
}

/// Parse a received packet: decode the destination from the first
/// frame, read the two-byte frame-count field after the prelude, and
/// concatenate the `size` payload bytes that follow it, ignoring the
/// zero padding of the last frame.
///
/// `size` is the payload's fixed byte length, known to both ends out of
/// band.
pub fn unpack_payload(frames: &[Frame], size: usize) -> (r: Result<
    (Address, Vec<u8>),
    PackError,
>)
    requires
        size <= usize::MAX - 65,
    ensures
        unpack_post(frames@, size as int, r),
{
    if frames.is_empty() {
        return Err(PackError::TruncatedInput);
    }

    let first: &Frame = &frames[0];
    let (addr, plen) = match Address::from_first_packet(first) {
        Ok(d) => d,
        Err(_) => {
            return Err(PackError::MalformedAddress);
        },
    };

    if plen > 30 {
        return Err(PackError::MalformedAddress);
    }

    let declared: usize = (first[plen] as usize) * 256 + (first[plen + 1] as usize);
    let needed_frames: usize = (plen + 2 + size + 31) / 32;
    if frames.len() < declared || frames.len() < needed_frames {
        return Err(PackError::TruncatedInput);
    }

    let mut out: Vec<u8> = Vec::new();
    let mut idx: usize = 0;
    while idx < size
        invariant
            idx <= size,
            out@.len() == idx,
            plen <= 30,
            size <= usize::MAX - 65,
            needed_frames == spec_total_frames(plen + 2 + size),
            frames@.len() >= needed_frames,
            forall|m: int|
                0 <= m < idx ==> #[trigger] out@[m] == spec_stream_byte(
                    frames@,
                    plen + 2 + m,
                ),
        decreases size - idx,
    {
        let j = plen + 2 + idx;
        let frame_at: &Frame = &frames[j / 32];
        out.push(frame_at[j % 32]);
        idx += 1;
    }

    Ok((addr, out))
}

/// Round trip of a whole packet (law): parsing the frames that
/// `pack_payload` produced yields the destination the packet was built
/// for and exactly the serialized payload bytes, for every well-formed
/// destination that is not a routed address masquerading as a local
/// sentinel.
///
/// The hypotheses are exactly the postconditions of the constructors
/// (`to_parent`, `to_child`, `to_address`, stated through the prelude of
/// `address`), of `pack_payload` and of `unpack_payload`; equality of
/// destinations is the meaning of `==` on `Address`.
pub proof fn lemma_packet_round_trip<Data: Pack<SIZE>, const SIZE: usize>(
    address: Address,
    p: Packet<Data, SIZE>,
    frames: Seq<Frame>,
    r: Result<(Address, Vec<u8>), PackError>,
)
    requires
        address.wf(),
        address.round_trippable(),
        address.spec_prelude_len() <= 30,
        p.wf(),
        p.spec_prelude_length() == address.spec_prelude_len() + 2,
        forall|i: int|
            0 <= i < address.spec_prelude_len() ==> #[trigger] p.spec_first()[i]
                == address.spec_prelude_byte(i),
        p.spec_first()[address.spec_prelude_len()] == spec_total_frames(
            p.spec_prelude_length() + SIZE,
        ) / 256,
        p.spec_first()[address.spec_prelude_len() + 1] == spec_total_frames(
            p.spec_prelude_length() + SIZE,
        ) % 256,
        frames.len() == spec_total_frames(p.spec_prelude_length() + SIZE),
        p.spec_data().spec_pack().len() == SIZE,
        forall|i: int, k: int|
            0 <= i < frames.len() && 0 <= k < 32 ==> #[trigger] frames[i]@[k]
                == spec_packet_byte(
                p.spec_first(),
                p.spec_prelude_length(),
                p.spec_data().spec_pack(),
                32 * i + k,
            ),
        unpack_post(frames, SIZE as int, r),
    ensures
        r matches Ok((b, out)) && b.eq_spec(&address) && out@ == p.spec_data().spec_pack(),
{
    let size = SIZE as int;
    let plen = address.spec_prelude_len();
    let hl = p.spec_prelude_length();
    let payload = p.spec_data().spec_pack();
    let total = spec_total_frames(hl + size);
    let bytes = frames[0]@;

    assert(total >= 1);

    // Frame 0 as decoding sees it: the header bytes, then payload.
    assert forall|k: int| 0 <= k < 32 implies bytes[k] == spec_packet_byte(
        p.spec_first(),
        hl,
        payload,
        k,
    ) by {
        assert(frames[0]@[k] == spec_packet_byte(p.spec_first(), hl, payload, 32 * 0 + k));
    }
    assert forall|k: int| 0 <= k < hl implies bytes[k] == p.spec_first()[k] by {}

    // The destination decodes back out of the header.
    match address {
        Address::Local(direction) => {
            assert(bytes[0] == crate::address::spec_local_sentinel(direction));
        },
        Address::Network { from, to } => {
            lemma_route_decode(from@, to@, bytes);
            assert(first_terminator(bytes, 0) == from@.len());
            match r {
                Ok((b, _out)) => {
                    match b {
                        Address::Network { from: bf, to: bt } => {
                            assert(bf@ =~= from@);
                            assert(bt@ =~= to@);
                        },
                        Address::Local(_) => {
                            assert(false);
                        },
                    }
                },
                Err(_) => {
                    // The declared frame count is the byte pair the
                    // constructor wrote, so nothing is truncated.
                    assert(bytes[plen] * 256 + bytes[plen + 1] == total);
                    assert(false);
                },
            }
        },
    }

    // The frame-count field reads back as the frame count, so the
    // window is in reach and holds the payload bytes.
    assert(bytes[plen] * 256 + bytes[plen + 1] == total);
    match r {
        Ok((_b, out)) => {
            assert forall|m: int| 0 <= m < size implies out@[m] == payload[m] by {
                let j = hl + m;
                let fi = j / 32;
                let fk = j % 32;
                assert(j < 32 * total);
                assert(fi < total);
                assert(32 * fi + fk == j);
                assert(frames[fi]@[fk] == spec_packet_byte(p.spec_first(), hl, payload, j));
                assert(out@[m] == spec_stream_byte(frames, j));
            }
            assert(out@ =~= payload);
        },
        Err(_) => {
            assert(false);
        },
    }
}

} // verus!
