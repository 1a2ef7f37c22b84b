//! Segmentation and reassembly of NCI packets on a byte stream.
//!
//! A logical packet is a 3-byte header followed by its payload. On the
//! wire it travels as one or more segments of at most 255 payload bytes;
//! every segment but the last carries the Packet Boundary Flag set to
//! `Incomplete`.
use vstd::prelude::*;

verus! {

/// Size of the NCI packet header.
pub const HEADER_SIZE: usize = 3;

/// Largest payload carried by a single segment.
pub const MAX_SEGMENT_PAYLOAD: usize = 255;

/// Mask of the Packet Boundary Flag in the first header byte.
pub const PBF_MASK: u8 = 0x10;

/// Errors raised while reassembling segments.
#[derive(Clone, Copy, Debug, PartialEq, Eq, Structural)]
pub enum CodecError {
    /// The header carries a reserved message type.
    InvalidMessageType,
    /// The payload does not have the length announced by the header.
    PayloadLengthMismatch,
    /// A continuation segment does not share the MT/GID/OID of the first one.
    HeaderMismatch,
}

/// Message type held in the three high bits of a header byte.
pub open spec fn mt_of(b: u8) -> u8 {
    b >> 5
}

/// Whether a header byte has the Packet Boundary Flag set (`Incomplete`).
pub open spec fn is_incomplete(b: u8) -> bool {
    (b >> 4) & 1 == 1
}

/// Header byte `b` with its Packet Boundary Flag forced to `incomplete`.
pub open spec fn with_pbf(b: u8, incomplete: bool) -> u8 {
    if incomplete {
        b | 0x10
    } else {
        b & 0xef
    }
}

/// The header byte with its Packet Boundary Flag cleared: the part that
/// every segment of one logical packet shares.
pub open spec fn header_key(b: u8) -> u8 {
    b & 0xef
}

pub open spec fn payload_len(p: Seq<u8>) -> nat {
    (p.len() - 3) as nat
}

/// Number of segments written for a payload of `len` bytes: one for an
/// empty payload, `ceil(len / 255)` otherwise.
pub open spec fn segment_count(len: nat) -> nat {
    if len == 0 {
        1
    } else {
        ((len + 254) / 255) as nat
    }
}

/// Offset in the payload where segment `i` ends.
pub open spec fn chunk_end(len: nat, i: nat) -> nat {
    if 255 * i + 255 <= len {
        255 * i + 255
    } else {
        len
    }
}

/// Segment `i` of the logical packet `p`, header included.
pub open spec fn segment_spec(p: Seq<u8>, i: nat) -> Seq<u8> {
    let len = payload_len(p);
    let s = 255 * i;
    let e = chunk_end(len, i);
    seq![with_pbf(p[0], e < len), p[1], (e - s) as u8] + p.subrange(3 + s as int, 3 + e as int)
}

/// All segments of the logical packet `p`, in wire order.
pub open spec fn segments(p: Seq<u8>) -> Seq<Seq<u8>> {
    Seq::new(segment_count(payload_len(p)), |i: int| segment_spec(p, i as nat))
}

/// One reassembly step: the buffer before the segment `seg` arrives, and
/// either an error or the buffer afterwards with the packet completed by
/// `seg`, if any. A buffer shorter than a header means that no packet is
/// in progress.
pub open spec fn step(buf: Seq<u8>, seg: Seq<u8>) -> Result<(Seq<u8>, Option<Seq<u8>>), CodecError> {
    if mt_of(seg[0]) > 3 {
        Err(CodecError::InvalidMessageType)
    } else if seg.len() - 3 != seg[2] {
        Err(CodecError::PayloadLengthMismatch)
    } else if buf.len() >= 3 && (header_key(buf[0]) != header_key(seg[0]) || buf[1] != seg[1]) {
        Err(CodecError::HeaderMismatch)
    } else {
        let acc = seg.take(3) + (if buf.len() >= 3 {
            buf.skip(3)
        } else {
            Seq::empty()
        }) + seg.skip(3);
        if is_incomplete(seg[0]) {
            Ok((acc, None))
        } else {
            Ok((Seq::empty(), Some(acc)))
        }
    }
}

/// Reassembly of a sequence of segments, from an idle reader: the final
/// buffer and the packets completed on the way, in order.
pub open spec fn feed(segs: Seq<Seq<u8>>) -> Result<(Seq<u8>, Seq<Seq<u8>>), CodecError>
    decreases segs.len(),
{
    if segs.len() == 0 {
        Ok((Seq::empty(), Seq::empty()))
    } else {
        match feed(segs.drop_last()) {
            Err(e) => Err(e),
            Ok((buf, out)) => match step(buf, segs.last()) {
                Err(e) => Err(e),
                Ok((nb, None)) => Ok((nb, out)),
                Ok((nb, Some(pk))) => Ok((nb, out.push(pk))),
            },
        }
    }
}

/// The packet that a reader hands out for `p`: its payload, under the
/// header of the last segment (flag cleared, length of the last chunk).
pub open spec fn reassembled(p: Seq<u8>) -> Seq<u8> {
    let len = payload_len(p);
    let n = segment_count(len);
    seq![header_key(p[0]), p[1], (len - 255 * (n - 1)) as u8] + p.skip(3)
}

pub proof fn lemma_pbf_bits(b: u8, incomplete: bool)
    ensures
        mt_of(with_pbf(b, incomplete)) == mt_of(b),
        header_key(with_pbf(b, incomplete)) == header_key(b),
        is_incomplete(with_pbf(b, incomplete)) == incomplete,
{
    if incomplete {
        assert((b | 0x10) >> 5 == b >> 5) by (bit_vector);
        assert((b | 0x10) & 0xef == b & 0xef) by (bit_vector);
        assert(((b | 0x10) >> 4) & 1 == 1) by (bit_vector);
    } else {
        assert((b & 0xef) >> 5 == b >> 5) by (bit_vector);
        assert((b & 0xef) & 0xef == b & 0xef) by (bit_vector);
        assert(((b & 0xef) >> 4) & 1 == 0) by (bit_vector);
    }
}

proof fn lemma_count(len: nat, i: nat)
    requires
        255 * i <= len,
        len == 0 || 255 * i < len,
    ensures
        (chunk_end(len, i) == len) == (i + 1 == segment_count(len)),
        i < segment_count(len),
{
    if len > 0 {
        assert(((len + 254) / 255) as nat > i) by (nonlinear_arith)
            requires
                255 * i < len,
        ;
        if 255 * i + 255 <= len {
            if 255 * i + 255 < len {
                assert(((len + 254) / 255) as nat > i + 1) by (nonlinear_arith)
                    requires
                        255 * i + 255 < len,
                ;
            } else {
                assert(((len + 254) / 255) as nat == i + 1) by (nonlinear_arith)
                    requires
                        255 * i + 255 == len,
                ;
            }
        } else {
            assert(((len + 254) / 255) as nat == i + 1) by (nonlinear_arith)
                requires
                    255 * i < len,
                    len < 255 * i + 255,
            ;
        }
    }
}

/// Splits the logical packet `packet` (header and payload) into the
/// segments written on the wire.
pub fn segment(packet: &Vec<u8>) -> (r: Vec<Vec<u8>>)
    requires
        packet@.len() >= 3,
    ensures
        r@.len() == segment_count(payload_len(packet@)),
        forall|i: int| 0 <= i < r@.len() ==> #[trigger] r@[i]@ == segment_spec(packet@, i as nat),
{
    let total: usize = packet.len() - HEADER_SIZE;
    let mut out: Vec<Vec<u8>> = Vec::new();
    let mut start: usize = 0;
    loop
        invariant_except_break
            start == 255 * out@.len(),
            total == 0 || start < total,
        invariant
            packet@.len() >= 3,
            packet@.len() <= usize::MAX,
            total == packet@.len() - 3,
            start <= total,
            forall|j: int| 0 <= j < out@.len() ==> #[trigger] out@[j]@ == segment_spec(packet@, j as nat),
        ensures
            out@.len() == segment_count(total as nat),
        decreases total - start,
    {
        let remaining: usize = total - start;
        let chunk: usize = if remaining > MAX_SEGMENT_PAYLOAD {
            MAX_SEGMENT_PAYLOAD
        } else {
            remaining
        };
        let last = chunk == remaining;
        let flag: u8 = if last {
            packet[0] & !PBF_MASK
        } else {
            packet[0] | PBF_MASK
        };
        assert(!PBF_MASK == 0xefu8) by (bit_vector);
        let mut seg: Vec<u8> = Vec::new();
        seg.push(flag);
        seg.push(packet[1]);
        seg.push(chunk as u8);
        let mut k: usize = 0;
        while k < chunk
            invariant
                k <= chunk,
                chunk <= 255,
                packet@.len() >= 3,
                packet@.len() <= usize::MAX,
                start + chunk <= total,
                total == packet@.len() - 3,
                seg@.len() == 3 + k,
                seg@.take(3) == seq![flag, packet@[1], chunk as u8],
                seg@.skip(3) == packet@.subrange(3 + start, 3 + start + k),
            decreases chunk - k,
        {
            seg.push(packet[HEADER_SIZE + start + k]);
            k = k + 1;
            assert(seg@.take(3) =~= seq![flag, packet@[1], chunk as u8]);
            assert(seg@.skip(3) =~= packet@.subrange(3 + start, 3 + start + k));
        }
        proof {
            let i = out@.len();
            assert(chunk_end(total as nat, i) == start + chunk);
            assert(seg@ =~= seg@.take(3) + seg@.skip(3));
            assert(seg@ =~= segment_spec(packet@, i));
        }
        let ghost i = out@.len();
        out.push(seg);
        proof {
            lemma_count(total as nat, i);
            assert(last ==> out@.len() == segment_count(total as nat));
        }
        start = start + chunk;
        if last {
            break;
        }
    }
    out
}

/// What a reader holds after the first `k` segments of `p`, while `p`
/// is still incomplete.
pub open spec fn prefix_buffer(p: Seq<u8>, k: nat) -> Seq<u8> {
    if k == 0 {
        Seq::empty()
    } else {
        seq![with_pbf(p[0], true), p[1], 255u8] + p.subrange(3, 3 + 255 * k as int)
    }
}

proof fn lemma_chunk_bounds(len: nat, i: nat)
    requires
        i < segment_count(len),
    ensures
        255 * i <= len,
        len == 0 || 255 * i < len,
        (chunk_end(len, i) == len) == (i + 1 == segment_count(len)),
{
    if len > 0 {
        assert(255 * i < len) by (nonlinear_arith)
            requires
                i < (len + 254) / 255,
        ;
    }
    lemma_count(len, i);
}

proof fn lemma_step_segment(p: Seq<u8>, i: nat)
    requires
        p.len() >= 3,
        mt_of(p[0]) <= 3,
        i < segment_count(payload_len(p)),
    ensures
        step(prefix_buffer(p, i), segment_spec(p, i)) == (if i + 1 < segment_count(payload_len(p)) {
            Ok::<(Seq<u8>, Option<Seq<u8>>), CodecError>((prefix_buffer(p, i + 1), None))
        } else {
            Ok::<(Seq<u8>, Option<Seq<u8>>), CodecError>((Seq::empty(), Some(reassembled(p))))
        }),
{
    let len = payload_len(p);
    let n = segment_count(len);
    let s: int = (255 * i) as int;
    let e: int = chunk_end(len, i) as int;
    lemma_chunk_bounds(len, i);
    let incomplete = e < len;
    lemma_pbf_bits(p[0], incomplete);
    lemma_pbf_bits(p[0], true);
    let seg = segment_spec(p, i);
    let buf = prefix_buffer(p, i);
    assert(seg[0] == with_pbf(p[0], incomplete));
    assert(seg[1] == p[1]);
    assert(seg[2] == (e - s) as u8);
    assert(seg.take(3) =~= seq![with_pbf(p[0], incomplete), p[1], (e - s) as u8]);
    assert(seg.skip(3) =~= p.subrange(3 + s, 3 + e));
    let mid = if buf.len() >= 3 {
        buf.skip(3)
    } else {
        Seq::<u8>::empty()
    };
    assert(mid =~= p.subrange(3, 3 + s));
    assert(seg.take(3) + mid + seg.skip(3) =~= seq![with_pbf(p[0], incomplete), p[1], (e - s) as u8]
        + p.subrange(3, 3 + e));
    if i + 1 < n {
        assert(e == s + 255);
        assert(prefix_buffer(p, i + 1) =~= seq![with_pbf(p[0], true), p[1], 255u8] + p.subrange(3, 3 + e));
    } else {
        assert(p.subrange(3, 3 + e) =~= p.skip(3));
    }
}

proof fn lemma_feed_prefix(p: Seq<u8>, k: nat)
    requires
        p.len() >= 3,
        mt_of(p[0]) <= 3,
        k < segment_count(payload_len(p)),
    ensures
        feed(segments(p).take(k as int)) == Ok::<(Seq<u8>, Seq<Seq<u8>>), CodecError>(
            (prefix_buffer(p, k), Seq::empty()),
        ),
    decreases k,
{
    if k == 0 {
        assert(segments(p).take(0) =~= Seq::<Seq<u8>>::empty());
    } else {
        lemma_feed_prefix(p, (k - 1) as nat);
        let segs = segments(p).take(k as int);
        assert(segs.drop_last() =~= segments(p).take(k - 1));
        assert(segs.last() == segment_spec(p, (k - 1) as nat));
        lemma_step_segment(p, (k - 1) as nat);
    }
}

/// Reading back the segments written for a logical packet yields exactly
/// one packet, with the same message type, identifiers and payload (only
/// the boundary flag and the length byte describe the last segment), and
/// leaves the reader idle.
pub proof fn lemma_round_trip(p: Seq<u8>)
    requires
        p.len() >= 3,
        mt_of(p[0]) <= 3,
    ensures
        feed(segments(p)) == Ok::<(Seq<u8>, Seq<Seq<u8>>), CodecError>(
            (Seq::empty(), seq![reassembled(p)]),
        ),
        reassembled(p).len() == p.len(),
        header_key(reassembled(p)[0]) == header_key(p[0]),
        reassembled(p)[1] == p[1],
        reassembled(p).skip(3) == p.skip(3),
        payload_len(p) <= 255 && p[2] == payload_len(p) && !is_incomplete(p[0]) ==> reassembled(p) == p,
{
    let len = payload_len(p);
    let n = segment_count(len);
    lemma_feed_prefix(p, (n - 1) as nat);
    let segs = segments(p);
    assert(segs.drop_last() =~= segs.take(n - 1));
    lemma_step_segment(p, (n - 1) as nat);
    assert(seq![reassembled(p)] =~= Seq::<Seq<u8>>::empty().push(reassembled(p)));
    let r = reassembled(p);
    assert(r.skip(3) =~= p.skip(3));
    lemma_pbf_bits(p[0], false);
    if len <= 255 && p[2] == len && !is_incomplete(p[0]) {
        assert(n == 1);
        let b = p[0];
        assert(b & 0xef == b) by (bit_vector)
            requires
                (b >> 4) & 1 != 1,
        ;
        assert(r =~= p);
    }
}

/// Segmentation of payloads that need more than one segment: the count is
/// `ceil(len / 255)`, every segment holds at most 258 bytes, and only the
/// last one has its boundary flag cleared.
pub proof fn lemma_segmentation_boundary(p: Seq<u8>)
    requires
        p.len() >= 3,
        payload_len(p) > 0,
    ensures
        segments(p).len() == (payload_len(p) + 254) / 255,
        forall|i: int|
            0 <= i < segments(p).len() ==> {
                &&& 4 <= #[trigger] segments(p)[i].len() <= 258
                &&& is_incomplete(segments(p)[i][0]) == (i + 1 < segments(p).len())
            },
{
    let len = payload_len(p);
    assert forall|i: int| 0 <= i < segments(p).len() implies {
        &&& 4 <= #[trigger] segments(p)[i].len() <= 258
        &&& is_incomplete(segments(p)[i][0]) == (i + 1 < segments(p).len())
    } by {
        lemma_chunk_bounds(len, i as nat);
        lemma_pbf_bits(p[0], chunk_end(len, i as nat) < len);
    }
}

/// Sum of the length bytes of `segs`.
pub open spec fn length_sum(segs: Seq<Seq<u8>>) -> nat
    decreases segs.len(),
{
    if segs.len() == 0 {
        0
    } else {
        length_sum(segs.drop_last()) + segs.last()[2] as nat
    }
}

proof fn lemma_length_sum_prefix(p: Seq<u8>, k: nat)
    requires
        p.len() >= 3,
        1 <= k <= segment_count(payload_len(p)),
    ensures
        length_sum(segments(p).take(k as int)) == chunk_end(payload_len(p), (k - 1) as nat),
    decreases k,
{
    let len = payload_len(p);
    let segs = segments(p).take(k as int);
    let i = (k - 1) as nat;
    lemma_chunk_bounds(len, i);
    assert(segs.last() == segment_spec(p, i));
    assert(segment_spec(p, i)[2] == (chunk_end(len, i) - 255 * i) as u8);
    assert(chunk_end(len, i) - 255 * i <= 255);
    assert(segs.last()[2] == chunk_end(len, i) - 255 * i);
    assert(length_sum(segs) == length_sum(segs.drop_last()) + segs.last()[2] as nat);
    if k == 1 {
        assert(segs.drop_last() =~= Seq::<Seq<u8>>::empty());
    } else {
        lemma_length_sum_prefix(p, i);
        assert(segs.drop_last() =~= segments(p).take(i as int));
        lemma_chunk_bounds(len, (i - 1) as nat);
        assert(255 * ((i - 1) as nat) + 255 == 255 * i);
        assert(chunk_end(len, (i - 1) as nat) == 255 * i);
        assert(length_sum(segs.drop_last()) == 255 * i);
    }
}

/// The length bytes of the segments of `p` add up to its payload length,
/// and each segment is its header and as many bytes as its length byte.
pub proof fn lemma_segment_lengths(p: Seq<u8>)
    requires
        p.len() >= 3,
    ensures
        length_sum(segments(p)) == payload_len(p),
        forall|i: int|
            0 <= i < segments(p).len() ==> #[trigger] segments(p)[i].len() == 3 + segments(p)[i][2],
{
    let len = payload_len(p);
    let n = segment_count(len);
    lemma_length_sum_prefix(p, n);
    assert(segments(p).take(n as int) =~= segments(p));
    lemma_chunk_bounds(len, (n - 1) as nat);
    assert forall|i: int|
        0 <= i < segments(p).len() implies #[trigger] segments(p)[i].len() == 3 + segments(p)[i][2] by {
        lemma_chunk_bounds(len, i as nat);
    }
}

/// Reassembles NCI segments into logical packets, one segment at a time.
pub struct Reassembler {
    buffer: Vec<u8>,
}

impl Reassembler {
    /// The header and payload accumulated so far; empty when no packet is
    /// in progress.
    pub closed spec fn pending(&self) -> Seq<u8> {
        self.buffer@
    }

    /// An idle reassembler.
    pub fn new() -> (r: Reassembler)
        ensures
            r.pending() == Seq::<u8>::empty(),
    {
        Reassembler { buffer: Vec::new() }
    }

    /// Takes in one segment, given as its 3-byte header and its payload.
    /// Returns the logical packet that this segment completes, if any; on
    /// an error the packet in progress is dropped.
    pub fn push(&mut self, header: [u8; 3], payload: &Vec<u8>) -> (r: Result<Option<Vec<u8>>, CodecError>)
        ensures
            match step(old(self).pending(), header@ + payload@) {
                Err(e) => r == Err::<Option<Vec<u8>>, CodecError>(e) && final(self).pending() == Seq::<u8>::empty(),
                Ok((nb, out)) => {
                    &&& r is Ok
                    &&& final(self).pending() == nb
                    &&& (r->Ok_0 is Some) == (out is Some)
                    &&& out is Some ==> r->Ok_0->Some_0@ == out->Some_0
                },
            },
    {
        let ghost seg = header@ + payload@;
        assert(seg[0] == header[0] && seg[1] == header[1] && seg[2] == header[2]);
        assert(seg.take(3) =~= header@);
        assert(seg.skip(3) =~= payload@);
        let h0 = header[0];
        let h1 = header[1];
        let h2 = header[2];
        if h0 >> 5u8 > 3 {
            self.buffer = Vec::new();
            return Err(CodecError::InvalidMessageType);
        }
        if payload.len() != h2 as usize {
            self.buffer = Vec::new();
            return Err(CodecError::PayloadLengthMismatch);
        }
        if self.buffer.len() >= 3 && ((self.buffer[0] & 0xef) != (h0 & 0xef) || self.buffer[1] != h1) {
            self.buffer = Vec::new();
            return Err(CodecError::HeaderMismatch);
        }
        let mut acc: Vec<u8> = Vec::new();
        acc.push(h0);
        acc.push(h1);
        acc.push(h2);
        if self.buffer.len() >= 3 {
            append_from(&mut acc, &self.buffer, HEADER_SIZE);
        }
        append_from(&mut acc, payload, 0);
        proof {
            let mid = if old(self).pending().len() >= 3 {
                old(self).pending().skip(3)
            } else {
                Seq::<u8>::empty()
            };
            assert(acc@ =~= seg.take(3) + mid + seg.skip(3));
        }
        if (h0 >> 4u8) & 1 == 1 {
            self.buffer = acc;
            Ok(None)
        } else {
            self.buffer = Vec::new();
            Ok(Some(acc))
        }
    }
}

/// A copy of `src[from..to]`.
pub fn copy_range(src: &Vec<u8>, from: usize, to: usize) -> (r: Vec<u8>)
    requires
        from <= to <= src@.len(),
    ensures
        r@ == src@.subrange(from as int, to as int),
{
    let mut r: Vec<u8> = Vec::new();
    let mut i: usize = from;
    while i < to
        invariant
            from <= i <= to <= src@.len(),
            r@ == src@.subrange(from as int, i as int),
        decreases to - i,
    {
        r.push(src[i]);
        i = i + 1;
        assert(r@ =~= src@.subrange(from as int, i as int));
    }
    r
}

/// Appends `src[from..]` to `dst`.
pub fn append_from(dst: &mut Vec<u8>, src: &Vec<u8>, from: usize)
    requires
        from <= src@.len(),
    ensures
        final(dst)@ == old(dst)@ + src@.skip(from as int),
{
    let mut i: usize = from;
    while i < src.len()
        invariant
            from <= i <= src@.len(),
            dst@ == old(dst)@ + src@.subrange(from as int, i as int),
        decreases src@.len() - i,
    {
        dst.push(src[i]);
        i = i + 1;
        assert(dst@ =~= old(dst)@ + src@.subrange(from as int, i as int));
    }
    assert(src@.subrange(from as int, i as int) =~= src@.skip(from as int));
}

} // verus!
