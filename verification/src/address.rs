//! The address codec: a destination is either a local direction with a
//! one-byte sentinel, or a pair of hierarchical paths packed two nibbles
//! per byte with zero-nibble terminators after each path.

use vstd::prelude::*;

use crate::packet::{Frame, PackError};

verus! {

use vstd::std_specs::cmp::PartialEqSpec;

/// Direction of a locally addressed packet: toward the node's parent or
/// toward its child.
#[derive(Debug, PartialEq, Eq, Structural, Clone, Copy)]
pub enum LocalAddress {
    ToParent,
    ToChild,
}

/// The one-byte sentinel that encodes a local direction at offset 0 of
/// the first frame.
pub open spec fn spec_local_sentinel(direction: LocalAddress) -> u8 {
    match direction {
        LocalAddress::ToParent => 0xA0,
        LocalAddress::ToChild => 0x90,
    }
}

/// Every hop of a path is a node identifier in 1..=15. The nibble 0 is
/// reserved as the in-band terminator and never names a node.
pub open spec fn valid_hops(path: Seq<u8>) -> bool {
    forall|i: int| 0 <= i < path.len() ==> 1 <= #[trigger] path[i] <= 15
}

/// Nibble `i` of the routed prelude's nibble stream: the hops of `from`,
/// one zero terminator, the hops of `to`, and zero nibbles from there on.
pub open spec fn route_nibble(from: Seq<u8>, to: Seq<u8>, i: int) -> u8 {
    if 0 <= i < from.len() {
        from[i]
    } else if from.len() < i <= from.len() + to.len() {
        to[i - from.len() - 1]
    } else {
        0
    }
}

/// Byte `i` of the routed prelude: two nibbles per byte, high nibble
/// first.
pub open spec fn route_byte(from: Seq<u8>, to: Seq<u8>, i: int) -> u8 {
    (route_nibble(from, to, 2 * i) * 16 + route_nibble(from, to, 2 * i + 1)) as u8
}

/// Byte length of a routed prelude: the hops of both paths plus two
/// terminator nibbles, rounded up to whole bytes.
pub open spec fn route_prelude_len(from: Seq<u8>, to: Seq<u8>) -> int {
    (from.len() + to.len() + 3) as int / 2
}

/// Destination of a packet: either a full source-path/destination-path
/// pair through the tree, or a local direction.
///
/// Paths are ordered most-significant hop first, one hop per byte.
#[derive(Debug, Clone, Eq)]
pub enum Address {
    Network { from: Vec<u8>, to: Vec<u8> },
    Local(LocalAddress),
}

impl PartialEq for Address {
    fn eq(&self, other: &Address) -> bool {
        match (self, other) {
            (Address::Local(a), Address::Local(b)) => *a == *b,
            (
                Address::Network { from: f1, to: t1 },
                Address::Network { from: f2, to: t2 },
            ) => {
                let from_eq = f1 == f2;
                let to_eq = t1 == t2;
                proof {
                    if from_eq {
                        assert(f1@ =~= f2@);
                    }
                    if f1@ == f2@ {
                        assert(from_eq);
                    }
                    if to_eq {
                        assert(t1@ =~= t2@);
                    }
                    if t1@ == t2@ {
                        assert(to_eq);
                    }
                }
                from_eq && to_eq
            },
            _ => false,
        }
    }
}

impl vstd::std_specs::cmp::PartialEqSpecImpl for Address {
    open spec fn obeys_eq_spec() -> bool {
        true
    }

    open spec fn eq_spec(&self, other: &Address) -> bool {
        match (self, other) {
            (Address::Local(a), Address::Local(b)) => a == b,
            (
                Address::Network { from: f1, to: t1 },
                Address::Network { from: f2, to: t2 },
            ) => f1@ == f2@ && t1@ == t2@,
            _ => false,
        }
    }
}

impl Address {
    /// A destination the codec can represent: hops are valid node
    /// identifiers and the packed prelude fits the 32-byte first frame.
    pub open spec fn wf(&self) -> bool {
        match self {
            Address::Local(_) => true,
            Address::Network { from, to } => {
                &&& valid_hops(from@)
                &&& valid_hops(to@)
                &&& from@.len() + to@.len() <= 62
            },
        }
    }

    /// Exact byte length of this destination's prelude.
    pub open spec fn spec_prelude_len(&self) -> int {
        match self {
            Address::Local(_) => 1,
            Address::Network { from, to } => route_prelude_len(from@, to@),
        }
    }

    /// Byte `i` of the first frame as the encoder fills it: the prelude
    /// bytes, then zeros.
    pub open spec fn spec_prelude_byte(&self, i: int) -> u8 {
        match self {
            Address::Local(direction) => {
                if i == 0 {
                    spec_local_sentinel(*direction)
                } else {
                    0
                }
            },
            Address::Network { from, to } => route_byte(from@, to@, i),
        }
    }
}

/// Nibble `i` of the routed prelude, executably.
fn route_nibble_at(from: &Vec<u8>, to: &Vec<u8>, i: usize) -> (r: u8)
    requires
        valid_hops(from@),
        valid_hops(to@),
        from@.len() + to@.len() <= 62,
    ensures
        r == route_nibble(from@, to@, i as int),
        r <= 15,
{
    if i < from.len() {
        from[i]
    } else if i > from.len() && i <= from.len() + to.len() {
        to[i - from.len() - 1]
    } else {
        0
    }
}

impl Address {
    /// Encode this destination into the head of the first frame.
    ///
    /// Returns the 32-byte frame holding the prelude followed by zeros,
    /// and the prelude's byte length.
    pub fn to_first_packet(self) -> (r: (Frame, usize))
        requires
            self.wf(),
        ensures
            r.1 == self.spec_prelude_len(),
            forall|i: int| 0 <= i < 32 ==> #[trigger] r.0@[i] == self.spec_prelude_byte(i),
            forall|i: int| r.1 <= i < 32 ==> #[trigger] r.0@[i] == 0,
    {
        let mut packet: Frame = [0u8; 32];

        match self {
            Address::Local(direction) => {
                packet[0] = match direction {
                    LocalAddress::ToParent => 0xA0,
                    LocalAddress::ToChild => 0x90,
                };

                (packet, 1)
            },
            Address::Network { from, to } => {
                let plen: usize = (from.len() + to.len() + 3) / 2;
                let mut i: usize = 0;
                while i < plen
                    invariant
                        i <= plen,
                        plen == route_prelude_len(from@, to@),
                        valid_hops(from@),
                        valid_hops(to@),
                        from@.len() + to@.len() <= 62,
                        forall|j: int| 0 <= j < i ==> packet@[j] == route_byte(from@, to@, j),
                        forall|j: int| i <= j < 32 ==> packet@[j] == 0,
                    decreases plen - i,
                {
                    let hi = route_nibble_at(&from, &to, 2 * i);
                    let lo = route_nibble_at(&from, &to, 2 * i + 1);
                    packet[i] = hi * 16 + lo;
                    i += 1;
                }

                proof {
                    assert forall|j: int| 0 <= j < 32 implies packet@[j] == route_byte(
                        from@,
                        to@,
                        j,
                    ) by {
                        if j >= plen {
                            assert(2 * j > from@.len() + to@.len() + 1);
                            assert(route_nibble(from@, to@, 2 * j) == 0);
                            assert(route_nibble(from@, to@, 2 * j + 1) == 0);
                        }
                    }
                }

                (packet, plen)
            },
        }
    }
}

/// Nibble `i` (high nibble first) of a received byte sequence.
pub open spec fn nibble_of(bytes: Seq<u8>, i: int) -> u8 {
    if i % 2 == 0 {
        bytes[i / 2] / 16
    } else {
        bytes[i / 2] % 16
    }
}

/// Position of the first zero nibble at or after position `i`, or 64 if
/// none stands in the 32-byte scan window.
pub open spec fn first_terminator(bytes: Seq<u8>, i: int) -> int
    decreases 64 - i,
{
    if i >= 64 {
        64
    } else if nibble_of(bytes, i) == 0 {
        i
    } else {
        first_terminator(bytes, i + 1)
    }
}

proof fn lemma_first_terminator_skip(bytes: Seq<u8>, s: int, i: int)
    requires
        0 <= s <= i <= 64,
        forall|k: int| s <= k < i ==> nibble_of(bytes, k) != 0,
    ensures
        first_terminator(bytes, s) == first_terminator(bytes, i),
    decreases i - s,
{
    if s < i {
        lemma_first_terminator_skip(bytes, s + 1, i);
    }
}

/// Everything decoding a first frame promises, as one predicate over the
/// frame's bytes: which destination and prelude length come out, and
/// exactly when decoding fails instead.
pub open spec fn decode_post(bytes: Seq<u8>, r: Result<(Address, usize), PackError>) -> bool {
    if bytes[0] == 0xA0 {
        r matches Ok((a, n)) && a == Address::Local(LocalAddress::ToParent) && n == 1
    } else if bytes[0] == 0x90 {
        r matches Ok((a, n)) && a == Address::Local(LocalAddress::ToChild) && n == 1
    } else {
        let f = first_terminator(bytes, 0);
        let j = first_terminator(bytes, f + 1);
        if f == 64 || j == 64 {
            r matches Err(e) && e == PackError::MalformedAddress
        } else {
            &&& r matches Ok((a, n))
            &&& a matches Address::Network { from, to }
            &&& from@ == Seq::new(f as nat, |k: int| nibble_of(bytes, k))
            &&& to@ == Seq::new((j - f - 1) as nat, |k: int| nibble_of(bytes, f + 1 + k))
            &&& n == (j + 2) / 2
        }
    }
}

/// Nibble `i` of a frame, executably.
fn nibble_at(frame: &Frame, i: usize) -> (r: u8)
    requires
        i < 64,
    ensures
        r == nibble_of(frame@, i as int),
{
    let b = frame[i / 2];
    if i % 2 == 0 {
        b / 16
    } else {
        b % 16
    }
}

impl Address {
    /// Decode a received first frame back into its destination and the
    /// prelude's byte length.
    ///
    /// A routed prelude is scanned nibble by nibble: the first zero
    /// nibble ends `from`, the next zero nibble ends `to`. If either
    /// terminator is missing from the 32-byte window, the frame cannot
    /// be an address and decoding fails.
    pub fn from_first_packet(frame: &Frame) -> (r: Result<(Address, usize), PackError>)
        ensures
            decode_post(frame@, r),
    {
        if frame[0] == 0xA0 {
            return Ok((Address::Local(LocalAddress::ToParent), 1));
        }
        if frame[0] == 0x90 {
            return Ok((Address::Local(LocalAddress::ToChild), 1));
        }

        let mut f: usize = 0;
        while f < 64 && nibble_at(frame, f) != 0
            invariant
                f <= 64,
                forall|k: int| 0 <= k < f ==> nibble_of(frame@, k) != 0,
            decreases 64 - f,
        {
            f += 1;
        }

        proof {
            lemma_first_terminator_skip(frame@, 0, f as int);
        }

        if f == 64 {
            return Err(PackError::MalformedAddress);
        }

        let mut j: usize = f + 1;
        while j < 64 && nibble_at(frame, j) != 0
            invariant
                f + 1 <= j <= 64,
                f < 64,
                forall|k: int| f + 1 <= k < j ==> nibble_of(frame@, k) != 0,
            decreases 64 - j,
        {
            j += 1;
        }

        proof {
            lemma_first_terminator_skip(frame@, f as int + 1, j as int);
        }

        if j == 64 {
            return Err(PackError::MalformedAddress);
        }

        let mut from: Vec<u8> = Vec::new();
        let mut k: usize = 0;
        while k < f
            invariant
                k <= f,
                f < 64,
                from@.len() == k,
                forall|m: int| 0 <= m < k ==> from@[m] == nibble_of(frame@, m),
            decreases f - k,
        {
            from.push(nibble_at(frame, k));
            k += 1;
        }

        let mut to: Vec<u8> = Vec::new();
        let mut k: usize = f + 1;
        while k < j
            invariant
                f + 1 <= k <= j,
                j < 64,
                to@.len() == k - (f + 1),
                forall|m: int| 0 <= m < k - (f + 1) ==> to@[m] == nibble_of(frame@, f + 1 + m),
            decreases j - k,
        {
            to.push(nibble_at(frame, k));
            k += 1;
        }

        proof {
            assert(from@ =~= Seq::new(f as nat, |k: int| nibble_of(frame@, k)));
            assert(to@ =~= Seq::new(
                (j - f - 1) as nat,
                |k: int| nibble_of(frame@, f + 1 + k),
            ));
        }

        Ok((Address::Network { from, to }, (j + 2) / 2))
    }
}

impl Address {
    /// A destination whose encoding decoding can tell apart from a local
    /// sentinel. A routed address whose `from` is the single hop 9 or 10
    /// followed by the terminator packs its first byte to 0x90 or 0xA0,
    /// the local sentinels, so the decoder reads it as a local
    /// destination; every other well-formed destination round-trips.
    pub open spec fn round_trippable(&self) -> bool {
        match self {
            Address::Local(_) => true,
            Address::Network { from, .. } => !(from@.len() == 1 && (from@[0] == 9
                || from@[0] == 10)),
        }
    }
}

/// Reading nibble `i` back out of the packed prelude bytes gives the
/// nibble stream the encoder packed, wherever byte `i / 2` is known to
/// hold the encoder's byte.
proof fn lemma_route_nibble_readback(
    from: Seq<u8>,
    to: Seq<u8>,
    bytes: Seq<u8>,
    limit: int,
    i: int,
)
    requires
        valid_hops(from),
        valid_hops(to),
        bytes.len() == 32,
        limit <= 32,
        forall|b: int| 0 <= b < limit ==> bytes[b] == route_byte(from, to, b),
        0 <= i,
        i / 2 < limit,
    ensures
        nibble_of(bytes, i) == route_nibble(from, to, i),
        route_nibble(from, to, i) <= 15,
{
    let b = i / 2;
    let hi = route_nibble(from, to, 2 * b);
    let lo = route_nibble(from, to, 2 * b + 1);
    assert(hi <= 15 && lo <= 15);
    assert(bytes[b] == (hi * 16 + lo) as u8);
    assert(bytes[b] / 16 == hi && bytes[b] % 16 == lo) by (nonlinear_arith)
        requires
            hi <= 15,
            lo <= 15,
            bytes[b] == hi * 16 + lo,
    ;
    assert(i == 2 * b || i == 2 * b + 1);
}

/// What the nibble scan finds on any first frame whose prelude bytes
/// hold an encoded routed destination, whatever stands after them: the
/// terminators sit where the encoder put them, and the nibbles before
/// each terminator read back as the two paths.
pub proof fn lemma_route_decode(from: Seq<u8>, to: Seq<u8>, bytes: Seq<u8>)
    requires
        valid_hops(from),
        valid_hops(to),
        from.len() + to.len() <= 62,
        from.len() == 1 ==> !(from[0] == 9 || from[0] == 10),
        bytes.len() == 32,
        forall|b: int| 0 <= b < route_prelude_len(from, to) ==> bytes[b] == route_byte(
            from,
            to,
            b,
        ),
    ensures
        bytes[0] != 0xA0,
        bytes[0] != 0x90,
        first_terminator(bytes, 0) == from.len(),
        first_terminator(bytes, from.len() as int + 1) == from.len() + to.len() + 1,
        Seq::new(from.len(), |k: int| nibble_of(bytes, k)) =~= from,
        Seq::new(to.len(), |k: int| nibble_of(bytes, from.len() as int + 1 + k)) =~= to,
{
    let f = from.len() as int;
    let t = to.len() as int;
    let plen = route_prelude_len(from, to);
    assert forall|i: int| 0 <= i <= f + t + 1 implies nibble_of(bytes, i) == route_nibble(
        from,
        to,
        i,
    ) && route_nibble(from, to, i) <= 15 by {
        assert(i / 2 < plen);
        lemma_route_nibble_readback(from, to, bytes, plen, i);
    }

    // The first byte of a routed prelude is never a local sentinel.
    assert(bytes[0] == route_byte(from, to, 0));
    if f == 0 {
        assert(route_nibble(from, to, 0) == 0);
        assert(bytes[0] <= 15);
    } else if f == 1 {
        assert(route_nibble(from, to, 1) == 0);
        assert(bytes[0] == route_nibble(from, to, 0) * 16);
    } else {
        assert(1 <= route_nibble(from, to, 1) <= 15);
    }
    assert(bytes[0] != 0xA0 && bytes[0] != 0x90);

    // The scan finds the terminator of each path.
    assert(nibble_of(bytes, f) == 0);
    lemma_first_terminator_skip(bytes, 0, f);
    assert(first_terminator(bytes, 0) == f);

    assert(nibble_of(bytes, f + 1 + t) == 0);
    lemma_first_terminator_skip(bytes, f + 1, f + 1 + t);
    assert(first_terminator(bytes, f + 1) == f + 1 + t);
}

/// Round trip of the address codec (law): decoding the first frame that
/// encoding filled yields the original destination and the same prelude
/// length, for every well-formed destination that is not a routed
/// address masquerading as a local sentinel.
///
/// The hypotheses are exactly the postconditions of `to_first_packet`
/// and `from_first_packet`; equality of destinations is the meaning of
/// `==` on `Address`.
pub proof fn lemma_address_round_trip(
    a: Address,
    frame: Seq<u8>,
    r: Result<(Address, usize), PackError>,
)
    requires
        a.wf(),
        a.round_trippable(),
        frame.len() == 32,
        forall|i: int| 0 <= i < 32 ==> frame[i] == a.spec_prelude_byte(i),
        decode_post(frame, r),
    ensures
        r matches Ok((b, n)) && b.eq_spec(&a) && n == a.spec_prelude_len(),
{
    match a {
        Address::Local(direction) => {
            assert(frame[0] == spec_local_sentinel(direction));
        },
        Address::Network { from, to } => {
            lemma_route_decode(from@, to@, frame);

            match r {
                Ok((b, _n)) => {
                    match b {
                        Address::Network { from: bf, to: bt } => {
                            assert(bf@ =~= from@);
                            assert(bt@ =~= to@);
                        },
                        Address::Local(_) => {
                            assert(false);
                        },
                    }
                },
                Err(_) => {
                    assert(false);
                },
            }
        },
    }
}

/// Decoding is a function of the frame alone (law): any two results the
/// decode contract admits for the same first frame carry the same
/// destination and prelude length, or the same error.
pub proof fn lemma_decode_deterministic(
    bytes: Seq<u8>,
    r1: Result<(Address, usize), PackError>,
    r2: Result<(Address, usize), PackError>,
)
    requires
        decode_post(bytes, r1),
        decode_post(bytes, r2),
    ensures
        r1 matches Ok((a1, n1)) ==> (r2 matches Ok((a2, n2)) && a1.eq_spec(&a2) && n1 == n2),
        r1 matches Err(e1) ==> (r2 matches Err(e2) && e1 == e2),
{
}

} // verus!
