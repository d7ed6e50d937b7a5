//! DTMF information element of U-INFO / D-INFO (ETSI EN 300 392-2 V3.x), carried as a type-3
//! element: a 3-bit DTMF type followed by 4-bit digits, or (edition 1) digits only.
use vstd::prelude::*;
use crate::cmce::type3::Type3FieldGeneric;
use crate::text::{digit_char, exec_digit_char, push_char};

verus! {

#[derive(Debug, Clone, Copy, PartialEq, Eq, Structural)]
pub enum DtmfKind {
    /// DTMF type 000: tone start, digits present.
    ToneStart,
    /// DTMF type 001.
    ToneEnd,
    /// DTMF type 010.
    NotSupported,
    /// DTMF type 011.
    NotSubscribed,
    /// Reserved DTMF types 100..111.
    Reserved(u8),
    /// Edition-1 payload (length divisible by 4): digits only, no type.
    LegacyDigits,
    /// The payload fits neither format.
    Invalid,
}

#[derive(Debug, Clone, PartialEq, Eq)]
pub struct DtmfDecoded {
    pub kind: DtmfKind,
    pub digits: String,
    /// Bits interpreted (at most 64, the capacity of the element).
    pub parsed_bits: usize,
    /// Length the element announced.
    pub full_len_bits: usize,
    pub malformed: bool,
}

/// The DTMF character of a 4-bit digit value: 0-9, then * # A B C D.
pub open spec fn dtmf_char(n: u64) -> char {
    if n < 10 {
        digit_char(n as nat)
    } else if n == 10 {
        '*'
    } else if n == 11 {
        '#'
    } else if n == 12 {
        'A'
    } else if n == 13 {
        'B'
    } else if n == 14 {
        'C'
    } else {
        'D'
    }
}

/// The `n` bits of `data` starting at bit `start` (bit 0 is the most significant), first bit
/// most significant.
pub open spec fn bits_at(data: u64, start: nat, n: nat) -> nat
    decreases n,
{
    if n == 0 {
        0
    } else {
        2 * bits_at(data, start, (n - 1) as nat) + ((data >> ((63 - (start + n - 1)) as u64)) & 1) as nat
    }
}

/// The characters of the `count` digits of `data` starting at bit `start`.
pub open spec fn dtmf_digits(data: u64, start: nat, count: nat) -> Seq<char>
    decreases count,
{
    if count == 0 {
        Seq::empty()
    } else {
        dtmf_digits(data, start, (count - 1) as nat).push(dtmf_char(bits_at(data, (start + 4 * (count - 1)) as nat, 4) as u64))
    }
}

/// What `decode_dtmf` makes of an element with announced length `len` and payload `data`.
pub open spec fn spec_decode_dtmf(len: usize, data: u64) -> (DtmfKind, Seq<char>, usize, bool) {
    let l = if len < 64 { len } else { 64usize };
    if l == 0 {
        (DtmfKind::Invalid, Seq::empty(), 0usize, true)
    } else if l % 4 == 0 {
        (DtmfKind::LegacyDigits, dtmf_digits(data, 0, (l / 4) as nat), l, l != len)
    } else if l < 3 {
        (DtmfKind::Invalid, Seq::empty(), l, true)
    } else {
        let t = bits_at(data, 0, 3);
        let tail = l - 3;
        let trunc = l != len;
        if t == 0 {
            if tail == 0 || tail % 4 != 0 {
                (DtmfKind::ToneStart, Seq::empty(), l, true)
            } else {
                (DtmfKind::ToneStart, dtmf_digits(data, 3, (tail / 4) as nat), l, trunc)
            }
        } else {
            let kind = if t == 1 {
                DtmfKind::ToneEnd
            } else if t == 2 {
                DtmfKind::NotSupported
            } else if t == 3 {
                DtmfKind::NotSubscribed
            } else {
                DtmfKind::Reserved(t as u8)
            };
            (kind, Seq::empty(), l, trunc || tail != 0)
        }
    }
}

fn decode_dtmf_digit(nibble: u64) -> (c: char)
    requires
        nibble < 16,
    ensures
        c == dtmf_char(nibble),
{
    if nibble < 10 {
        exec_digit_char(nibble)
    } else if nibble == 10 {
        '*'
    } else if nibble == 11 {
        '#'
    } else if nibble == 12 {
        'A'
    } else if nibble == 13 {
        'B'
    } else if nibble == 14 {
        'C'
    } else {
        'D'
    }
}

proof fn lemma_bits_at_bound(data: u64, start: nat, n: nat)
    ensures
        bits_at(data, start, n) < pow2(n),
    decreases n,
{
    if n > 0 {
        lemma_bits_at_bound(data, start, (n - 1) as nat);
        let sh: u64 = (63 - (start + n - 1)) as u64;
        let b: u64 = (data >> sh) & 1;
        assert(b <= 1) by (bit_vector)
            requires
                b == (data >> sh) & 1,
        ;
    }
}

/// 2 to the power `n`.
pub open spec fn pow2(n: nat) -> nat
    decreases n,
{
    if n == 0 { 1 } else { 2 * pow2((n - 1) as nat) }
}

/// The `n` bits of `data` at bit `start`; the bits must lie within the 64 payload bits.
fn read_bits(data: u64, start: usize, n: usize) -> (v: u64)
    requires
        start + n <= 64,
        n <= 4,
    ensures
        v == bits_at(data, start as nat, n as nat),
{
    let mut v: u64 = 0;
    let mut i: usize = 0;
    while i < n
        invariant
            i <= n,
            n <= 4,
            start + n <= 64,
            v == bits_at(data, start as nat, i as nat),
            v < pow2(i as nat),
        decreases n - i,
    {
        let shift: u64 = (63 - (start + i)) as u64;
        let b = (data >> shift) & 1;
        assert(b <= 1) by (bit_vector)
            requires
                b == (data >> shift) & 1,
        ;
        proof {
            assert(pow2((i + 1) as nat) == 2 * pow2(i as nat));
            assert(pow2(4) == 16) by { reveal_with_fuel(pow2, 5); }
            assert(pow2((i + 1) as nat) <= 16) by {
                if i == 0 {
                    assert(pow2(1) == 2) by { reveal_with_fuel(pow2, 5); }
                } else if i == 1 {
                    assert(pow2(2) == 4) by { reveal_with_fuel(pow2, 5); }
                } else if i == 2 {
                    assert(pow2(3) == 8) by { reveal_with_fuel(pow2, 5); }
                }
            }
        }
        v = 2 * v + b;
        i = i + 1;
    }
    v
}

/// Append the characters of `count` digits starting at bit `start` to `s`.
fn push_digits(s: &mut String, data: u64, start: usize, count: usize)
    requires
        start + 4 * count <= 64,
    ensures
        final(s)@ == old(s)@ + dtmf_digits(data, start as nat, count as nat),
{
    let mut i: usize = 0;
    while i < count
        invariant
            i <= count,
            start + 4 * count <= 64,
            s@ == old(s)@ + dtmf_digits(data, start as nat, i as nat),
        decreases count - i,
    {
        let nib = read_bits(data, start + 4 * i, 4);
        proof {
            lemma_bits_at_bound(data, (start + 4 * i) as nat, 4);
            assert(pow2(4) == 16) by { reveal_with_fuel(pow2, 5); }
        }
        let c = decode_dtmf_digit(nib);
        push_char(s, c);
        i = i + 1;
        assert(s@ =~= old(s)@ + dtmf_digits(data, start as nat, i as nat));
    }
}

/// Decode a DTMF element. A length divisible by 4 is an edition-1 digit string; otherwise the
/// first 3 bits give the DTMF type, and only tone start carries digits. Only the 64 bits an
/// element can hold are read; anything beyond, or a tail of the wrong size, marks the element
/// malformed.
pub fn decode_dtmf(field: &Type3FieldGeneric) -> (d: DtmfDecoded)
    ensures
        d.kind == spec_decode_dtmf(field.len, field.data).0,
        d.digits@ == spec_decode_dtmf(field.len, field.data).1,
        d.parsed_bits == spec_decode_dtmf(field.len, field.data).2,
        d.malformed == spec_decode_dtmf(field.len, field.data).3,
        d.full_len_bits == field.len,
{
    let full_len_bits = field.len;
    let len_bits: usize = if full_len_bits < 64 { full_len_bits } else { 64 };
    let mut digits = String::new();
    if len_bits == 0 {
        return DtmfDecoded { kind: DtmfKind::Invalid, digits, parsed_bits: 0, full_len_bits, malformed: true };
    }
    if len_bits % 4 == 0 {
        push_digits(&mut digits, field.data, 0, len_bits / 4);
        assert(digits@ =~= dtmf_digits(field.data, 0, (len_bits / 4) as nat));
        return DtmfDecoded {
            kind: DtmfKind::LegacyDigits,
            digits,
            parsed_bits: len_bits,
            full_len_bits,
            malformed: len_bits != full_len_bits,
        };
    }
    if len_bits < 3 {
        return DtmfDecoded { kind: DtmfKind::Invalid, digits, parsed_bits: len_bits, full_len_bits, malformed: true };
    }
    let dtmf_type = read_bits(field.data, 0, 3);
    proof {
        lemma_bits_at_bound(field.data, 0, 3);
        assert(pow2(3) == 8) by { reveal_with_fuel(pow2, 5); }
    }
    let tail_bits = len_bits - 3;
    let mut malformed = len_bits != full_len_bits;
    let kind = if dtmf_type == 0 {
        if tail_bits == 0 || tail_bits % 4 != 0 {
            malformed = true;
        } else {
            push_digits(&mut digits, field.data, 3, tail_bits / 4);
            assert(digits@ =~= dtmf_digits(field.data, 3, (tail_bits / 4) as nat));
        }
        DtmfKind::ToneStart
    } else {
        if tail_bits != 0 {
            malformed = true;
        }
        if dtmf_type == 1 {
            DtmfKind::ToneEnd
        } else if dtmf_type == 2 {
            DtmfKind::NotSupported
        } else if dtmf_type == 3 {
            DtmfKind::NotSubscribed
        } else {
            DtmfKind::Reserved(dtmf_type as u8)
        }
    };
    DtmfDecoded { kind, digits, parsed_bits: len_bits, full_len_bits, malformed }
}

/// Byte `i` (most significant first) of `data`.
pub open spec fn data_byte(data: u64, i: nat) -> u8 {
    ((data >> ((56 - 8 * i) as u64)) & 0xff) as u8
}

/// Pack the payload of a type-3 element (at most 64 bits) into bytes, most significant first,
/// with the unused low bits of the last byte cleared. Returns the bit length and the bytes.
pub fn pack_type3_bits_to_bytes(field: &Type3FieldGeneric) -> (r: (u16, Vec<u8>))
    ensures
        ({
            let l = if field.len < 64 { field.len as nat } else { 64nat };
            &&& r.0 == l
            &&& r.1@.len() == (l + 7) / 8
            &&& forall|i: int| 0 <= i < r.1@.len() ==> #[trigger] r.1@[i] == if i == r.1@.len() - 1 && l % 8 != 0 {
                data_byte(field.data, i as nat) & ((0xffu8 << ((8 - l % 8) as u8)) as u8)
            } else {
                data_byte(field.data, i as nat)
            }
        }),
{
    let len_bits: usize = if field.len < 64 { field.len } else { 64 };
    if len_bits == 0 {
        return (0, Vec::new());
    }
    let num_bytes = (len_bits + 7) / 8;
    let mut out: Vec<u8> = Vec::new();
    let mut i: usize = 0;
    while i < num_bytes
        invariant
            num_bytes <= 8,
            i <= num_bytes,
            out@.len() == i,
            forall|j: int| 0 <= j < i ==> #[trigger] out@[j] == data_byte(field.data, j as nat),
        decreases num_bytes - i,
    {
        let shift: u64 = (56 - i * 8) as u64;
        let b = ((field.data >> shift) & 0xff) as u8;
        out.push(b);
        i = i + 1;
    }
    if len_bits % 8 != 0 {
        let last_idx = num_bytes - 1;
        let last = out[last_idx];
        let rem = (len_bits % 8) as u8;
        let mask: u8 = 0xffu8 << (8 - rem);
        out.set(last_idx, last & mask);
    }
    (len_bits as u16, out)
}

} // verus!
