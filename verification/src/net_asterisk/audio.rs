//! RTP payload extraction, the bit layout of a TETRA speech TMD block (two 137-bit ACELP
//! codec frames) and G.711 mu-law companding.
use vstd::prelude::*;

verus! {

pub const PCMU_PAYLOAD_TYPE: u8 = 0;
pub const TETRA_CODED_BITS_PER_FRAME: usize = 137;
pub const TETRA_CODED_BYTES_PER_FRAME: usize = 18;
pub const TETRA_TMD_BITS_PER_BLOCK: usize = 274;
pub const TETRA_TMD_PACKED_BYTES: usize = 35;

// ── RTP ─────────────────────────────────────────────────────────────────────────────────────

/// Where the payload of an RTP packet lies: `Some((payload_type, start, end))`, or `None`
/// when the packet is not a well-formed RTP version-2 packet.
pub open spec fn rtp_layout(p: Seq<u8>) -> Option<(u8, int, int)> {
    if p.len() < 12 || (p[0] >> 6u8) != 2 {
        None
    } else {
        let has_padding = p[0] & 0x20 != 0;
        let has_extension = p[0] & 0x10 != 0;
        let csrc_count = (p[0] & 0x0f) as int;
        let pt = p[1] & 0x7f;
        let padding = p[p.len() - 1] as int;
        if has_padding && (padding == 0 || padding > p.len()) {
            None
        } else {
            let end = if has_padding { p.len() - padding } else { p.len() as int };
            let offset = 12 + csrc_count * 4;
            if offset > end {
                None
            } else if !has_extension {
                Some((pt, offset, end))
            } else if offset + 4 > end {
                None
            } else {
                let words = p[offset + 2] as int * 256 + p[offset + 3] as int;
                let payload_start = offset + 4 + words * 4;
                if payload_start > end { None } else { Some((pt, payload_start, end)) }
            }
        }
    }
}

/// The payload type and payload of an RTP packet (CSRC list, header extension and padding
/// skipped), or `None` for a packet that is not well-formed RTP version 2.
pub fn rtp_payload(packet: &[u8]) -> (r: Option<(u8, &[u8])>)
    ensures
        match rtp_layout(packet@) {
            None => r is None,
            Some((pt, start, end)) => r matches Some((rpt, payload)) && rpt == pt && payload@
                == packet@.subrange(start, end),
        },
{
    if packet.len() < 12 || packet[0] >> 6 != 2 {
        return None;
    }
    let has_padding = packet[0] & 0x20 != 0;
    let has_extension = packet[0] & 0x10 != 0;
    let csrc_count = (packet[0] & 0x0f) as usize;
    let payload_type = packet[1] & 0x7f;

    let mut end = packet.len();
    if has_padding {
        let padding = packet[packet.len() - 1] as usize;
        if padding == 0 || padding > end {
            return None;
        }
        end = end - padding;
    }

    let mut offset = 12 + csrc_count * 4;
    if offset > end {
        return None;
    }

    if has_extension {
        if offset + 4 > end {
            return None;
        }
        let extension_words = (packet[offset + 2] as usize) * 256 + packet[offset + 3] as usize;
        offset = offset + 4 + extension_words * 4;
        if offset > end {
            return None;
        }
    }
    Some((payload_type, &packet[offset..end]))
}

// ── Packed bits ─────────────────────────────────────────────────────────────────────────────

/// Bit `i` of a byte string, most significant bit of each byte first.
pub open spec fn bit_of(s: Seq<u8>, i: int) -> u8 {
    (s[i / 8] >> ((7 - i % 8) as u8)) & 1
}

pub fn get_packed_bit(data: &[u8], bit_idx: usize) -> (b: u8)
    requires
        bit_idx / 8 < data@.len(),
    ensures
        b == bit_of(data@, bit_idx as int),
        b <= 1,
{
    let byte = data[bit_idx / 8];
    let shift = (7 - (bit_idx % 8)) as u8;
    assert((byte >> shift) & 1 <= 1) by (bit_vector);
    (byte >> shift) & 1
}

proof fn lemma_or_bit(b: u8, p: u8, q: u8)
    by (bit_vector)
    requires
        p < 8,
        q < 8,
    ensures
        p == q ==> ((b | (1u8 << (7 - p) as u8)) >> (7 - q) as u8) & 1 == 1,
        p != q ==> ((b | (1u8 << (7 - p) as u8)) >> (7 - q) as u8) & 1 == (b >> (7 - q) as u8) & 1,
{
}

/// Sets bit `bit_idx` when `bit`'s low bit is 1; never clears a bit.
pub fn set_packed_bit(data: &mut [u8], bit_idx: usize, bit: u8)
    requires
        bit_idx / 8 < old(data)@.len(),
    ensures
        final(data)@.len() == old(data)@.len(),
        forall|k: int|
            0 <= k < 8 * old(data)@.len() ==> #[trigger] bit_of(final(data)@, k) == (if k
                == bit_idx && bit & 1 != 0 {
                1
            } else {
                bit_of(old(data)@, k)
            }),
{
    if bit & 1 != 0 {
        let i = bit_idx / 8;
        let p = (bit_idx % 8) as u8;
        let old_byte = data[i];
        data[i] = old_byte | (1u8 << (7 - p));
        assert forall|k: int| 0 <= k < 8 * old(data)@.len() implies #[trigger] bit_of(data@, k) == (
        if k == bit_idx && bit & 1 != 0 {
            1
        } else {
            bit_of(old(data)@, k)
        }) by {
            if k / 8 == i as int {
                lemma_or_bit(old_byte, p, (k % 8) as u8);
            }
        }
    }
}

proof fn lemma_zero_bits(b: u8, q: u8)
    by (bit_vector)
    requires
        b == 0,
        q < 8,
    ensures
        (b >> (7 - q) as u8) & 1 == 0,
{
}

proof fn lemma_bits_equal_bytes_equal(a: u8, b: u8)
    by (bit_vector)
    requires
        (a >> 7u8) & 1 == (b >> 7u8) & 1,
        (a >> 6u8) & 1 == (b >> 6u8) & 1,
        (a >> 5u8) & 1 == (b >> 5u8) & 1,
        (a >> 4u8) & 1 == (b >> 4u8) & 1,
        (a >> 3u8) & 1 == (b >> 3u8) & 1,
        (a >> 2u8) & 1 == (b >> 2u8) & 1,
        (a >> 1u8) & 1 == (b >> 1u8) & 1,
        (a >> 0u8) & 1 == (b >> 0u8) & 1,
    ensures
        a == b,
{
}

/// Two byte strings of equal length with the same bits are equal.
pub proof fn lemma_bits_determine_bytes(a: Seq<u8>, b: Seq<u8>)
    requires
        a.len() == b.len(),
        forall|k: int| 0 <= k < 8 * a.len() ==> #[trigger] bit_of(a, k) == bit_of(b, k),
    ensures
        a == b,
{
    assert forall|i: int| 0 <= i < a.len() implies a[i] == b[i] by {
        assert(bit_of(a, 8 * i) == bit_of(b, 8 * i));
        assert(bit_of(a, 8 * i + 1) == bit_of(b, 8 * i + 1));
        assert(bit_of(a, 8 * i + 2) == bit_of(b, 8 * i + 2));
        assert(bit_of(a, 8 * i + 3) == bit_of(b, 8 * i + 3));
        assert(bit_of(a, 8 * i + 4) == bit_of(b, 8 * i + 4));
        assert(bit_of(a, 8 * i + 5) == bit_of(b, 8 * i + 5));
        assert(bit_of(a, 8 * i + 6) == bit_of(b, 8 * i + 6));
        assert(bit_of(a, 8 * i + 7) == bit_of(b, 8 * i + 7));
        lemma_bits_equal_bytes_equal(a[i], b[i]);
    }
    assert(a =~= b);
}

// ── TMD blocks ──────────────────────────────────────────────────────────────────────────────

/// Bit `k` of a TMD block as given to the splitter: packed MSB-first (35 bytes, optionally
/// behind one leading header byte), or one bit per byte (low bit) otherwise.
pub open spec fn tmd_source_bit(data: Seq<u8>, k: int) -> u8 {
    if data.len() == 36 {
        bit_of(data.subrange(1, 36), k)
    } else if data.len() == 35 {
        bit_of(data, k)
    } else {
        data[k] & 1
    }
}

/// A codec frame whose 137 bits are bits `base..base+137` of the block, the 7 padding bits zero.
pub open spec fn frame_holds(frame: Seq<u8>, data: Seq<u8>, base: int) -> bool {
    &&& frame.len() == 18
    &&& forall|j: int|
        0 <= j < 144 ==> #[trigger] bit_of(frame, j) == (if j < 137 {
            tmd_source_bit(data, base + j)
        } else {
            0
        })
}

/// Split one TMD speech block into its two codec frames. Accepts 35 packed bytes (also behind
/// one header byte) or at least 274 one-bit-per-byte values; `None` otherwise.
pub fn split_tmd_block_to_codec_frames(data: &[u8]) -> (r: Option<[[u8; 18]; 2]>)
    ensures
        r is Some <==> (data@.len() == 36 || data@.len() == 35 || data@.len() >= 274),
        r matches Some(frames) ==> frame_holds(frames[0]@, data@, 0) && frame_holds(
            frames[1]@,
            data@,
            137,
        ),
{
    let is_packed = data.len() == 36 || data.len() == 35;
    if !is_packed && data.len() < 274 {
        return None;
    }
    let mut fa: [u8; 18] = [0u8; 18];
    let mut fb: [u8; 18] = [0u8; 18];
    assert forall|j: int| 0 <= j < 144 implies #[trigger] bit_of(fa@, j) == 0 && bit_of(fb@, j)
        == 0 by {
        lemma_zero_bits(fa@[j / 8], (j % 8) as u8);
        lemma_zero_bits(fb@[j / 8], (j % 8) as u8);
    }
    let mut bit_idx: usize = 0;
    while bit_idx < 274
        invariant
            is_packed == (data@.len() == 36 || data@.len() == 35),
            !is_packed ==> data@.len() >= 274,
            bit_idx <= 274,
            fa@.len() == 18,
            fb@.len() == 18,
            forall|j: int|
                0 <= j < 144 ==> #[trigger] bit_of(fa@, j) == (if j < 137 && j < bit_idx {
                    tmd_source_bit(data@, j)
                } else {
                    0
                }),
            forall|j: int|
                0 <= j < 144 ==> #[trigger] bit_of(fb@, j) == (if j < 137 && 137 + j < bit_idx {
                    tmd_source_bit(data@, 137 + j)
                } else {
                    0
                }),
        decreases 274 - bit_idx,
    {
        let bit = if data.len() == 36 {
            let packed = &data[1..36];
            get_packed_bit(packed, bit_idx)
        } else if data.len() == 35 {
            get_packed_bit(data, bit_idx)
        } else {
            let v = data[bit_idx];
            assert(v & 1 <= 1) by (bit_vector);
            v & 1
        };
        assert(bit == tmd_source_bit(data@, bit_idx as int));
        assert(bit <= 1 ==> ((bit & 1 != 0) == (bit == 1))) by (bit_vector);
        if bit_idx < 137 {
            set_packed_bit(&mut fa, bit_idx, bit);
        } else {
            set_packed_bit(&mut fb, bit_idx - 137, bit);
        }
        bit_idx = bit_idx + 1;
    }
    Some([fa, fb])
}

/// A packed TMD block carrying the bits of two codec frames.
pub open spec fn block_holds(out: Seq<u8>, a: Seq<u8>, b: Seq<u8>) -> bool {
    &&& out.len() == 35
    &&& forall|k: int|
        0 <= k < 280 ==> #[trigger] bit_of(out, k) == (if k < 137 {
            bit_of(a, k)
        } else if k < 274 {
            bit_of(b, k - 137)
        } else {
            0
        })
}

/// Pack two codec frames back into one 35-byte TMD block (274 bits, MSB-first).
pub fn join_codec_frames_to_tmd_block(frame_a: &[u8; 18], frame_b: &[u8; 18]) -> (out: Vec<u8>)
    ensures
        block_holds(out@, frame_a@, frame_b@),
{
    let mut out: Vec<u8> = vec![0u8; 35];
    assert forall|k: int| 0 <= k < 280 implies #[trigger] bit_of(out@, k) == 0 by {
        lemma_zero_bits(out@[k / 8], (k % 8) as u8);
    }
    let mut bit_idx: usize = 0;
    while bit_idx < 274
        invariant
            bit_idx <= 274,
            out@.len() == 35,
            forall|k: int|
                0 <= k < 280 ==> #[trigger] bit_of(out@, k) == (if k < bit_idx && k < 137 {
                    bit_of(frame_a@, k)
                } else if k < bit_idx && k < 274 {
                    bit_of(frame_b@, k - 137)
                } else {
                    0
                }),
        decreases 274 - bit_idx,
    {
        let bit = if bit_idx < 137 {
            get_packed_bit(frame_a, bit_idx)
        } else {
            get_packed_bit(frame_b, bit_idx - 137)
        };
        assert(bit <= 1 ==> ((bit & 1 != 0) == (bit == 1))) by (bit_vector);
        set_packed_bit(&mut out, bit_idx, bit);
        bit_idx = bit_idx + 1;
    }
    out
}

/// Law: packing the frames of a split block and splitting the packed block again gives the
/// same frames back, bit for bit.
pub proof fn lemma_tmd_round_trip(data: Seq<u8>, fa: Seq<u8>, fb: Seq<u8>, packed: Seq<u8>, fa2: Seq<u8>, fb2: Seq<u8>)
    requires
        frame_holds(fa, data, 0),
        frame_holds(fb, data, 137),
        block_holds(packed, fa, fb),
        frame_holds(fa2, packed, 0),
        frame_holds(fb2, packed, 137),
    ensures
        fa2 == fa,
        fb2 == fb,
{
    assert forall|k: int| 0 <= k < 8 * fa.len() implies #[trigger] bit_of(fa2, k) == bit_of(fa, k) by {
        if k < 137 {
            assert(bit_of(packed, k) == bit_of(fa, k));
        }
    }
    lemma_bits_determine_bytes(fa2, fa);
    assert forall|k: int| 0 <= k < 8 * fb.len() implies #[trigger] bit_of(fb2, k) == bit_of(fb, k) by {
        if k < 137 {
            assert(bit_of(packed, 137 + k) == bit_of(fb, k));
        }
    }
    lemma_bits_determine_bytes(fb2, fb);
}

// ── G.711 mu-law ────────────────────────────────────────────────────────────────────────────

/// `2^e` for `0 <= e <= 10`.
pub open spec fn pow2_small(e: int) -> int {
    if e == 0 { 1 } else if e == 1 { 2 } else if e == 2 { 4 } else if e == 3 { 8 }
    else if e == 4 { 16 } else if e == 5 { 32 } else if e == 6 { 64 } else if e == 7 { 128 }
    else if e == 8 { 256 } else if e == 9 { 512 } else { 1024 }
}

/// The linear sample a mu-law code decodes to.
pub open spec fn spec_ulaw_to_linear(sample: u8) -> int {
    let s = !sample;
    let mantissa = (s & 0x0f) as int;
    let exponent = ((s & 0x70) >> 4u8) as int;
    let value = (mantissa * 8 + 0x84) * pow2_small(exponent);
    if s & 0x80 != 0 { 0x84 - value } else { value - 0x84 }
}

pub fn ulaw_to_linear(sample: u8) -> (r: i16)
    ensures
        r == spec_ulaw_to_linear(sample),
{
    let s = !sample;
    let mantissa = (s & 0x0f) as i16;
    let exponent = (s & 0x70) >> 4;
    assert(mantissa <= 15 && exponent <= 7) by (bit_vector)
        requires
            mantissa == (s & 0x0f) as i16,
            exponent == (s & 0x70) >> 4,
    {
    }
    let base: i16 = mantissa * 8 + 0x84;
    let mut value: i16 = base;
    let mut e: u8 = 0;
    while e < exponent
        invariant
            exponent <= 7,
            e <= exponent,
            0 <= base <= 252,
            value == base * pow2_small(e as int),
        decreases exponent - e,
    {
        value = value * 2;
        e = e + 1;
    }
    if s & 0x80 != 0 { 0x84 - value } else { value - 0x84 }
}

/// Segment of a biased magnitude: the first `i` with `pcm <= 2^(i+8) - 1`, else 7.
pub open spec fn ulaw_segment(pcm: int) -> int {
    if pcm <= 0xff { 0 } else if pcm <= 0x1ff { 1 } else if pcm <= 0x3ff { 2 }
    else if pcm <= 0x7ff { 3 } else if pcm <= 0xfff { 4 } else if pcm <= 0x1fff { 5 }
    else if pcm <= 0x3fff { 6 } else { 7 }
}

/// The biased, clipped magnitude of a linear sample.
pub open spec fn ulaw_biased_magnitude(sample: i16) -> int {
    let mag = if sample < 0 { -(sample as int) } else { sample as int };
    (if mag < 32635 { mag } else { 32635 }) + 0x84
}

/// The mu-law code of a linear sample.
pub open spec fn spec_linear_to_ulaw(sample: i16) -> u8 {
    let pcm = ulaw_biased_magnitude(sample);
    let seg = ulaw_segment(pcm);
    let mask: u8 = if sample < 0 { 0x7f } else { 0xff };
    ((seg * 16 + (pcm / pow2_small(seg + 3)) % 16) as u8) ^ mask
}

pub fn linear_to_ulaw(sample: i16) -> (r: u8)
    ensures
        r == spec_linear_to_ulaw(sample),
{
    let mut pcm: i32 = sample as i32;
    let mask: u8 = if pcm < 0 {
        pcm = -pcm;
        0x7f
    } else {
        0xff
    };
    pcm = (if pcm < 32635 { pcm } else { 32635 }) + 0x84;
    let segment: i32 = if pcm <= 0xff { 0 } else if pcm <= 0x1ff { 1 } else if pcm <= 0x3ff { 2 }
    else if pcm <= 0x7ff { 3 } else if pcm <= 0xfff { 4 } else if pcm <= 0x1fff { 5 }
    else if pcm <= 0x3fff { 6 } else { 7 };
    let mut q: i32 = pcm;
    let mut e: i32 = 0;
    while e < segment + 3
        invariant
            0 <= segment <= 7,
            0 <= e <= segment + 3,
            0 <= pcm <= 32767,
            q == pcm as int / pow2_small(e as int),
        decreases segment + 3 - e,
    {
        assert(pow2_small(e + 1) == 2 * pow2_small(e as int));
        assert(q / 2 == pcm as int / pow2_small(e + 1)) by (nonlinear_arith)
            requires
                q == pcm as int / pow2_small(e as int),
                pow2_small(e + 1) == 2 * pow2_small(e as int),
                pow2_small(e as int) > 0,
                pcm >= 0,
        {
        }
        q = q / 2;
        e = e + 1;
    }
    let ulaw = (segment * 16 + q % 16) as u8;
    ulaw ^ mask
}


/// A decoded code's biased magnitude `(8m + 0x84) * 2^e` lies in segment `e`, and its
/// mantissa is `m` again.
proof fn lemma_ulaw_segment(m: int, e: int)
    requires
        0 <= m < 16,
        0 <= e < 8,
    ensures
        ulaw_segment((m * 8 + 0x84) * pow2_small(e)) == e,
        ((m * 8 + 0x84) * pow2_small(e)) / pow2_small(e + 3) == m + 16,
        0x84 <= (m * 8 + 0x84) * pow2_small(e) <= 32256,
{
    let v = m * 8 + 0x84;
    if e == 0 {
        assert(v * 1 == v);
    } else if e == 1 {
        assert(v * 2 / 16 == m + 16);
    } else if e == 2 {
        assert(v * 4 / 32 == m + 16);
    } else if e == 3 {
        assert(v * 8 / 64 == m + 16);
    } else if e == 4 {
        assert(v * 16 / 128 == m + 16);
    } else if e == 5 {
        assert(v * 32 / 256 == m + 16);
    } else if e == 6 {
        assert(v * 64 / 512 == m + 16);
    } else {
        assert(v * 128 / 1024 == m + 16);
    }
}

/// Decoding a mu-law code and encoding the sample again gives the code back, for every code
/// but 0x7F (negative zero), which comes back as 0xFF (positive zero).
pub proof fn lemma_ulaw_round_trip(c: u8)
    ensures
        spec_linear_to_ulaw(spec_ulaw_to_linear(c) as i16) == if c == 0x7f { 0xffu8 } else { c },
{
    let s: u8 = !c;
    let m: u8 = s & 0x0f;
    let e: u8 = (s & 0x70) >> 4u8;
    let neg: bool = s & 0x80 != 0;
    assert(m < 16 && e < 8) by (bit_vector)
        requires
            m == s & 0x0f,
            e == (s & 0x70) >> 4u8,
    ;
    assert(c == ((e * 16 + m) as u8) ^ (if neg { 0x7fu8 } else { 0xffu8 })) by (bit_vector)
        requires
            s == !c,
            m == s & 0x0f,
            e == (s & 0x70) >> 4u8,
            neg == (s & 0x80 != 0),
    ;
    assert((c == 0x7f) == (neg && m == 0 && e == 0)) by (bit_vector)
        requires
            s == !c,
            m == s & 0x0f,
            e == (s & 0x70) >> 4u8,
            neg == (s & 0x80 != 0),
    ;
    lemma_ulaw_segment(m as int, e as int);
    let value = (m * 8 + 0x84) * pow2_small(e as int);
    let lin = spec_ulaw_to_linear(c);
    assert(lin == if neg { 0x84 - value } else { value - 0x84 });
    let x = lin as i16;
    assert(x as int == lin);
    assert(ulaw_biased_magnitude(x) == value);
    assert((x < 0) == (neg && !(m == 0 && e == 0)));
    let code = ((e * 16 + m) as u8);
    assert(((e as int) * 16 + (value / pow2_small(e + 3)) % 16) as u8 == code);
    if c == 0x7f {
        assert(code == 0);
        assert(0u8 ^ 0xffu8 == 0xffu8) by (bit_vector);
    }
}

// ── Downlink blocking ───────────────────────────────────────────────────────────────────────

pub const TETRA_PCM_SAMPLES_PER_FRAME: usize = 240;
pub const TETRA_PCM_SAMPLES_PER_BLOCK: usize = 480;

/// Linear samples of mu-law `payload`.
pub open spec fn linear_of(payload: Seq<u8>) -> Seq<i16> {
    payload.map_values(|b: u8| spec_ulaw_to_linear(b) as i16)
}

/// Downlink audio from Asterisk waiting to fill a speech block of two codec frames.
pub struct PcmuBlocker {
    downlink_pcm: Vec<i16>,
}

impl PcmuBlocker {
    /// Linear samples not yet handed out (fewer than one block).
    pub closed spec fn pending(&self) -> Seq<i16> {
        self.downlink_pcm@
    }

    pub fn new() -> (b: Self)
        ensures
            b.pending().len() == 0,
    {
        PcmuBlocker { downlink_pcm: Vec::new() }
    }

    /// Samples waiting for the next block.
    pub fn pending_len(&self) -> (n: usize)
        ensures
            n == self.pending().len(),
    {
        self.downlink_pcm.len()
    }

    /// Append the mu-law `payload` as linear samples and hand out every whole block, in order,
    /// as its two codec frames of `TETRA_PCM_SAMPLES_PER_FRAME` samples; what is left of the
    /// samples (less than a block) waits for the next payload.
    pub fn push_pcmu(&mut self, payload: &[u8]) -> (blocks: Vec<(Vec<i16>, Vec<i16>)>)
        requires
            old(self).pending().len() + payload@.len() <= usize::MAX,
        ensures
            ({
                let all = old(self).pending() + linear_of(payload@);
                let n = all.len() as int / 480;
                &&& blocks@.len() == n
                &&& forall|i: int|
                    0 <= i < n ==> #[trigger] blocks@[i].0@ == all.subrange(480 * i, 480 * i + 240) && blocks@[i].1@
                        == all.subrange(480 * i + 240, 480 * i + 480)
                &&& final(self).pending() == all.subrange(480 * n, all.len() as int)
            }),
    {
        let ghost all = self.downlink_pcm@ + linear_of(payload@);
        let ghost p0 = self.downlink_pcm@;
        let mut k: usize = 0;
        while k < payload.len()
            invariant
                k <= payload@.len(),
                self.downlink_pcm@ == p0 + linear_of(payload@).take(k as int),
                p0 + linear_of(payload@) == all,
            decreases payload@.len() - k,
        {
            let v = ulaw_to_linear(payload[k]);
            self.downlink_pcm.push(v);
            proof {
                assert(linear_of(payload@).take(k + 1) == linear_of(payload@).take(k as int).push(v));
                assert(self.downlink_pcm@ =~= p0 + linear_of(payload@).take(k + 1));
            }
            k = k + 1;
        }
        assert(linear_of(payload@).take(payload@.len() as int) == linear_of(payload@));
        let len = self.downlink_pcm.len();
        let mut blocks: Vec<(Vec<i16>, Vec<i16>)> = Vec::new();
        let mut start: usize = 0;
        while len - start >= TETRA_PCM_SAMPLES_PER_BLOCK
            invariant
                self.downlink_pcm@ == all,
                len == all.len(),
                start <= len,
                start == 480 * blocks@.len(),
                forall|i: int|
                    0 <= i < blocks@.len() ==> #[trigger] blocks@[i].0@ == all.subrange(480 * i, 480 * i + 240)
                        && blocks@[i].1@ == all.subrange(480 * i + 240, 480 * i + 480),
            decreases len - start,
        {
            let mut a: Vec<i16> = Vec::new();
            let mut b: Vec<i16> = Vec::new();
            let mut j: usize = 0;
            while j < TETRA_PCM_SAMPLES_PER_FRAME
                invariant
                    self.downlink_pcm@ == all,
                    len == all.len(),
                    start + 480 <= len,
                    j <= 240,
                    a@ == all.subrange(start as int, start + j),
                    b@ == all.subrange(start + 240, start + 240 + j),
                decreases 240 - j,
            {
                a.push(self.downlink_pcm[start + j]);
                b.push(self.downlink_pcm[start + TETRA_PCM_SAMPLES_PER_FRAME + j]);
                proof {
                    assert(a@ =~= all.subrange(start as int, start + j + 1));
                    assert(b@ =~= all.subrange(start + 240, start + 240 + j + 1));
                }
                j = j + 1;
            }
            let ghost b0 = blocks@;
            blocks.push((a, b));
            proof {
                assert forall|i: int| 0 <= i < blocks@.len() implies #[trigger] blocks@[i].0@ == all.subrange(480 * i, 480 * i + 240)
                    && blocks@[i].1@ == all.subrange(480 * i + 240, 480 * i + 480) by {
                    if i < b0.len() {
                        assert(blocks@[i] == b0[i]);
                    }
                }
            }
            start = start + TETRA_PCM_SAMPLES_PER_BLOCK;
        }
        let mut rest: Vec<i16> = Vec::new();
        let mut m: usize = start;
        while m < len
            invariant
                self.downlink_pcm@ == all,
                len == all.len(),
                start <= m <= len,
                rest@ == all.subrange(start as int, m as int),
            decreases len - m,
        {
            rest.push(self.downlink_pcm[m]);
            proof {
                assert(rest@ =~= all.subrange(start as int, m + 1));
            }
            m = m + 1;
        }
        self.downlink_pcm = rest;
        proof {
            let n = all.len() as int / 480;
            assert(blocks@.len() == n) by (nonlinear_arith)
                requires
                    start == 480 * blocks@.len(),
                    start <= all.len(),
                    all.len() - start < 480,
                    n == all.len() / 480,
            {
            }
        }
        blocks
    }
}

} // verus!
