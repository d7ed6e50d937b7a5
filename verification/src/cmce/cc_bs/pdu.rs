//! External subscriber numbers of up to 24 digits, right-aligned in a 128-bit payload.
use vstd::prelude::*;
use crate::cmce::type3::{EXT_SUBSCRIBER_NUM_ID, Type3FieldWide};
use crate::cmce::cc_bs::ext_number::{
    all_nibbles, ext_nibble, is_dialable, kept_nibbles, nibble_char, nibbles_to_chars,
    take_at_most, lemma_all_nibbles_decode, lemma_nibbles_to_chars_take,
};
use crate::text::push_char;

verus! {

/// Payload bits a decoder considers: at most 128.
pub open spec fn clamp_len128(len: usize) -> int {
    if len <= 128 { len as int } else { 128 }
}

/// Number of nibbles a decoder reads from a payload of `len` bits.
pub open spec fn nibble_count128(len: usize) -> nat {
    if clamp_len128(len) / 4 <= 24 { (clamp_len128(len) / 4) as nat } else { 24 }
}

/// Nibble `i` (most significant first) of a right-aligned payload of `len_bits` bits.
pub open spec fn nibble_at128(data: u128, len_bits: int, i: int) -> u8 {
    ((data >> ((len_bits - 4 * (i + 1)) as u128)) & 0xf) as u8
}

/// The characters a decoder reads from the first `count` nibbles.
pub open spec fn decoded128(data: u128, len_bits: int, count: nat) -> Seq<char>
    decreases count,
{
    if count == 0 {
        Seq::empty()
    } else {
        let rest = decoded128(data, len_bits, (count - 1) as nat);
        match nibble_char(nibble_at128(data, len_bits, count - 1)) {
            Some(c) => rest.push(c),
            None => rest,
        }
    }
}

/// Decode the External Subscriber Number element (BCD-like digits, filler nibbles dropped).
pub fn decode_external_subscriber_number(field: &Type3FieldWide) -> (r: String)
    ensures
        r@ == decoded128(field.data, clamp_len128(field.len), nibble_count128(field.len)),
{
    let mut digits = String::new();
    if field.len == 0 {
        return digits;
    }
    let len_bits: usize = if field.len <= 128 { field.len } else { 128 };
    let nibble_count: usize = if len_bits / 4 <= 24 { len_bits / 4 } else { 24 };
    let mut i: usize = 0;
    while i < nibble_count
        invariant
            len_bits == clamp_len128(field.len),
            nibble_count == nibble_count128(field.len),
            i <= nibble_count <= 24,
            4 * nibble_count <= len_bits,
            digits@ == decoded128(field.data, len_bits as int, i as nat),
        decreases nibble_count - i,
    {
        let shift: u128 = (len_bits - (i + 1) * 4) as u128;
        let nibble: u8 = ((field.data >> shift) & 0x0f) as u8;
        assert(nibble == nibble_at128(field.data, len_bits as int, i as int));
        if nibble <= 9 {
            push_char(&mut digits, (nibble + 48) as char);
        } else if nibble == 10 {
            push_char(&mut digits, '*');
        } else if nibble == 11 {
            push_char(&mut digits, '#');
        }
        i = i + 1;
    }
    digits
}

proof fn lemma_append_nibble(data: u128, n: u128, k: u128)
    by (bit_vector)
    requires
        n < 16,
        k < 24,
        data >> ((4 * k) as u128) == 0,
    ensures
        ((data << 4) | n) >> ((4 * (k + 1)) as u128) == 0,
        ((data << 4) | n) & 0xf == n,
{
}

proof fn lemma_append_nibble_keeps(data: u128, n: u128, k: u128, j: u128)
    by (bit_vector)
    requires
        n < 16,
        k < 24,
        j < k,
        data >> ((4 * k) as u128) == 0,
    ensures
        (((data << 4) | n) >> ((4 * (k - j)) as u128)) & 0xf == (data >> ((4 * (k - 1 - j)) as u128))
            & 0xf,
{
}

/// `r` is the External Subscriber Number element of dialled number `number`: none when no
/// character is encodable, else the nibbles of its first 24 encodable characters, first in the
/// most significant position, with nothing above them.
pub open spec fn encodes_number(number: Seq<char>, r: Option<Type3FieldWide>) -> bool {
    &&& r is None <==> kept_nibbles(number, 24).len() == 0
    &&& r matches Some(f) ==> {
        &&& f.field_id == EXT_SUBSCRIBER_NUM_ID
        &&& f.len == 4 * kept_nibbles(number, 24).len()
        &&& f.data >> (f.len as u128) == 0
        &&& forall|j: int|
            0 <= j < kept_nibbles(number, 24).len() ==> nibble_at128(f.data, f.len as int, j)
                == #[trigger] kept_nibbles(number, 24)[j]
    }
}

/// Encode a dialled number as the External Subscriber Number element. Characters other than
/// digits, `*` and `#` are skipped; only the first 24 encodable characters are kept.
/// Returns `None` when no character is encodable.
pub fn encode_external_subscriber_number(number: &str) -> (r: Option<Type3FieldWide>)
    ensures
        encodes_number(number@, r),
{
    let mut nibbles: Vec<u8> = Vec::new();
    let ghost s = number@;
    for ch in it: number.chars()
        invariant
            s == number@,
            it.seq() == s,
            nibbles@ == take_at_most(all_nibbles(s.take(it.index() as int)), 24),
    {
        let ghost i = it.index();
        assert(s.take(i + 1).drop_last() =~= s.take(i as int));
        assert(s.take(i + 1).last() == ch);
        let nibble: Option<u8> = if '0' <= ch && ch <= '9' {
            Some((ch as u32 - 48) as u8)
        } else if ch == '*' {
            Some(10)
        } else if ch == '#' {
            Some(11)
        } else {
            None
        };
        assert(nibble == ext_nibble(ch));
        if let Some(n) = nibble {
            if nibbles.len() < 24 {
                nibbles.push(n);
            }
        }
        assert(nibbles@ =~= take_at_most(all_nibbles(s.take(i + 1)), 24));
    }
    assert(s.take(s.len() as int) =~= s);
    if nibbles.len() == 0 {
        return None;
    }
    proof {
        lemma_all_nibbles_decode(s);
    }
    let count = nibbles.len();
    let mut data: u128 = 0;
    let mut idx: usize = 0;
    assert(0u128 >> 0u128 == 0) by (bit_vector);
    while idx < count
        invariant
            count == nibbles@.len(),
            count <= 24,
            nibbles@ == kept_nibbles(s, 24),
            forall|j: int| 0 <= j < nibbles@.len() ==> #[trigger] nibbles@[j] <= 11,
            idx <= count,
            data >> ((4 * idx) as u128) == 0,
            forall|j: int|
                0 <= j < idx ==> ((data >> ((4 * (idx - 1 - j)) as u128)) & 0xf) as u8
                    == #[trigger] nibbles@[j],
        decreases count - idx,
    {
        let n = nibbles[idx] as u128;
        proof {
            lemma_append_nibble(data, n, idx as u128);
            assert forall|j: int| 0 <= j < idx + 1 implies ((((data << 4) | n) >> ((4 * (idx
                - j)) as u128)) & 0xf) as u8 == #[trigger] nibbles@[j] by {
                if j < idx {
                    lemma_append_nibble_keeps(data, n, idx as u128, j as u128);
                } else {
                    assert(((data << 4) | n) >> 0u128 == ((data << 4) | n)) by (bit_vector);
                }
            }
        }
        data = (data << 4) | n;
        idx = idx + 1;
    }
    let f = Type3FieldWide { field_id: EXT_SUBSCRIBER_NUM_ID, len: count * 4, data };
    assert forall|j: int| 0 <= j < count implies nibble_at128(f.data, f.len as int, j)
        == #[trigger] nibbles@[j] by {
        assert(f.len as int - 4 * (j + 1) == 4 * (count - 1 - j));
    }
    Some(f)
}

proof fn lemma_decoded128_of_nibbles(data: u128, len_bits: int, ns: Seq<u8>, count: nat)
    requires
        count <= ns.len(),
        forall|j: int| 0 <= j < ns.len() ==> nibble_at128(data, len_bits, j) == #[trigger] ns[j],
    ensures
        decoded128(data, len_bits, count) == nibbles_to_chars(ns.take(count as int)),
    decreases count,
{
    if count > 0 {
        lemma_decoded128_of_nibbles(data, len_bits, ns, (count - 1) as nat);
        assert(ns.take(count as int).drop_last() =~= ns.take(count - 1));
    }
}

proof fn lemma_chars_len(ns: Seq<u8>)
    requires
        forall|j: int| 0 <= j < ns.len() ==> #[trigger] ns[j] <= 11,
    ensures
        nibbles_to_chars(ns).len() == ns.len(),
    decreases ns.len(),
{
    if ns.len() > 0 {
        lemma_chars_len(ns.drop_last());
    }
}

/// Law: decoding an encoded number gives back its first 24 dialable characters
/// (digits, `*`, `#`), in order.
pub proof fn lemma_ext_number_round_trip(number: Seq<char>, f: Type3FieldWide)
    requires
        f.len == 4 * kept_nibbles(number, 24).len(),
        forall|j: int|
            0 <= j < kept_nibbles(number, 24).len() ==> nibble_at128(f.data, f.len as int, j)
                == #[trigger] kept_nibbles(number, 24)[j],
    ensures
        decoded128(f.data, clamp_len128(f.len), nibble_count128(f.len)) == take_at_most(
            number.filter(|c: char| is_dialable(c)),
            24,
        ),
{
    let ns = kept_nibbles(number, 24);
    let all = all_nibbles(number);
    lemma_all_nibbles_decode(number);
    assert(nibble_count128(f.len) == ns.len());
    lemma_decoded128_of_nibbles(f.data, f.len as int, ns, ns.len());
    assert(ns.take(ns.len() as int) =~= ns);
    lemma_chars_len(all);
    if all.len() > 24 {
        lemma_nibbles_to_chars_take(all, 24);
        lemma_chars_len(all.take(24));
    }
}

} // verus!
