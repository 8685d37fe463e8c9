//! Reference payload serializations: big-endian integers, and two
//! simple fixed-size patterns for exercising frame boundaries.

use vstd::prelude::*;

use crate::packet::Pack;

verus! {

/// Big-endian byte `b` (0 is the most significant) of a 32-bit word.
pub open spec fn spec_u32_byte(v: u32, b: int) -> u8 {
    if b == 0 {
        (v / 0x1000000) as u8
    } else if b == 1 {
        ((v / 0x10000) % 256) as u8
    } else if b == 2 {
        ((v / 0x100) % 256) as u8
    } else {
        (v % 256) as u8
    }
}

impl Pack<2> for u16 {
    open spec fn spec_pack(self) -> Seq<u8> {
        seq![(self / 256) as u8, (self % 256) as u8]
    }

    fn pack(self) -> (r: [u8; 2]) {
        let mut r: [u8; 2] = [0u8; 2];
        r[0] = (self / 256) as u8;
        r[1] = (self % 256) as u8;
        proof {
            assert(r@ =~= self.spec_pack());
        }
        r
    }
}

impl Pack<128> for [u32; 32] {
    open spec fn spec_pack(self) -> Seq<u8> {
        Seq::new(128, |i: int| spec_u32_byte(self@[i / 4], i % 4))
    }

    fn pack(self) -> (r: [u8; 128]) {
        let mut buffer: [u8; 128] = [0u8; 128];
        let mut i: usize = 0;
        while i < 32
            invariant
                i <= 32,
                forall|m: int|
                    0 <= m < 4 * i ==> #[trigger] buffer@[m] == spec_u32_byte(
                        self@[m / 4],
                        m % 4,
                    ),
            decreases 32 - i,
        {
            let v = self[i];
            buffer[4 * i] = (v / 0x1000000) as u8;
            buffer[4 * i + 1] = ((v / 0x10000) % 256) as u8;
            buffer[4 * i + 2] = ((v / 0x100) % 256) as u8;
            buffer[4 * i + 3] = (v % 256) as u8;
            proof {
                assert forall|m: int| 0 <= m < 4 * (i + 1) implies #[trigger] buffer@[m]
                    == spec_u32_byte(self@[m / 4], m % 4) by {
                    if 4 * i <= m {
                        assert(m / 4 == i);
                    }
                }
            }
            i += 1;
        }
        proof {
            assert(buffer@ =~= self.spec_pack());
        }
        buffer
    }
}

/// A payload of all-zero bytes, at any fixed size: the smallest thing
/// that can fill a packet of a chosen span.
pub struct Zeroes;

impl<const N: usize> Pack<N> for Zeroes {
    open spec fn spec_pack(self) -> Seq<u8> {
        Seq::new(N as nat, |i: int| 0u8)
    }

    fn pack(self) -> (r: [u8; N]) {
        let r: [u8; N] = [0u8; N];
        proof {
            assert(r@ =~= <Zeroes as Pack<N>>::spec_pack(self));
        }
        r
    }
}

/// A payload whose byte `i` is `i + 1` truncated to a byte: a
/// recognizable ramp for checking where chunk boundaries fall.
pub struct ByteRamp;

impl<const N: usize> Pack<N> for ByteRamp {
    open spec fn spec_pack(self) -> Seq<u8> {
        Seq::new(N as nat, |i: int| ((i + 1) % 256) as u8)
    }

    fn pack(self) -> (r: [u8; N]) {
        let mut bytes: [u8; N] = [0u8; N];
        let mut i: usize = 0;
        while i < N
            invariant
                i <= N,
                forall|m: int| 0 <= m < i ==> #[trigger] bytes@[m] == ((m + 1) % 256) as u8,
            decreases N - i,
        {
            bytes[i] = ((i + 1) % 256) as u8;
            i += 1;
        }
        proof {
            assert(bytes@ =~= <ByteRamp as Pack<N>>::spec_pack(self));
        }
        bytes
    }
}

} // verus!

