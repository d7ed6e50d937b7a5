//! External subscriber numbers of up to 16 digits, packed MSB-first into a 64-bit payload.
use vstd::prelude::*;
use crate::cmce::type3::{EXT_SUBSCRIBER_NUM_ID, Type3FieldGeneric};
use crate::cmce::cc_bs::ext_number::{
    all_nibbles, ext_nibble, is_dialable, kept_nibbles, nibble_char, nibbles_to_chars, take_at_most,
    lemma_all_nibbles_decode, lemma_nibbles_to_chars_take,
};
use crate::text::push_char;

verus! {

/// Nibble `i` (0-based, most significant first) of a 64-bit payload.
pub open spec fn nibble_at64(data: u64, i: int) -> u8 {
    ((data >> ((60 - 4 * i) as u64)) & 0xf) as u8
}

/// The characters a decoder reads from the first `count` nibbles of `data`.
pub open spec fn decoded64(data: u64, count: nat) -> Seq<char>
    decreases count,
{
    if count == 0 {
        Seq::empty()
    } else {
        let rest = decoded64(data, (count - 1) as nat);
        match nibble_char(nibble_at64(data, count - 1)) {
            Some(c) => rest.push(c),
            None => rest,
        }
    }
}

/// Number of nibbles a decoder reads from a payload of `len` bits.
pub open spec fn nibble_count64(len: usize) -> nat {
    if len / 4 <= 16 { (len / 4) as nat } else { 16 }
}

/// Decode the External Subscriber Number element (BCD-packed digits, filler nibbles dropped).
pub fn decode_external_subscriber_number(field: &Type3FieldGeneric) -> (r: String)
    ensures
        r@ == decoded64(field.data, nibble_count64(field.len)),
{
    let mut digits = String::new();
    if field.len == 0 {
        return digits;
    }
    let nibble_count: usize = if field.len / 4 <= 16 { field.len / 4 } else { 16 };
    let mut i: usize = 0;
    while i < nibble_count
        invariant
            nibble_count == nibble_count64(field.len),
            i <= nibble_count <= 16,
            digits@ == decoded64(field.data, i as nat),
        decreases nibble_count - i,
    {
        let shift: u64 = 60 - (i as u64) * 4;
        let nibble: u8 = ((field.data >> shift) & 0x0f) as u8;
        assert(nibble == nibble_at64(field.data, i as int));
        if nibble <= 9 {
            push_char(&mut digits, (nibble + 48) as char);
        } else if nibble == 10 {
            push_char(&mut digits, '*');
        } else if nibble == 11 {
            push_char(&mut digits, '#');
        }
        i = i + 1;
    }
    digits
}

proof fn lemma_place_nibble(data: u64, n: u64, i: u64)
    by (bit_vector)
    requires
        n < 16,
        i < 16,
        data << ((4 * i) as u64) == 0,
    ensures
        (((data | (n << ((60 - 4 * i) as u64))) >> ((60 - 4 * i) as u64)) & 0xf) == n,
        (data | (n << ((60 - 4 * i) as u64))) << ((4 * (i + 1)) as u64) == 0,
{
}

proof fn lemma_place_nibble_keeps(data: u64, n: u64, i: u64, j: u64)
    by (bit_vector)
    requires
        n < 16,
        j < i,
        i < 16,
        data << ((4 * i) as u64) == 0,
    ensures
        (((data | (n << ((60 - 4 * i) as u64))) >> ((60 - 4 * j) as u64)) & 0xf) == ((data >> ((60 - 4 * j) as u64)) & 0xf),
{
}

proof fn lemma_zero_shift(i: u64)
    by (bit_vector)
    requires
        i <= 16,
    ensures
        (0u64 << ((4 * i) as u64)) == 0,
{
}

/// Encode a dialled number as the External Subscriber Number element. Characters other than
/// digits, `*` and `#` are skipped; only the first 16 encodable characters are kept.
/// Returns `None` when no character is encodable.
pub fn encode_external_subscriber_number(number: &str) -> (r: Option<Type3FieldGeneric>)
    ensures
        r is None <==> kept_nibbles(number@, 16).len() == 0,
        r matches Some(f) ==> {
            &&& f.field_id == EXT_SUBSCRIBER_NUM_ID
            &&& f.len == 4 * kept_nibbles(number@, 16).len()
            &&& forall|j: int|
                0 <= j < kept_nibbles(number@, 16).len() ==> nibble_at64(f.data, j)
                    == #[trigger] kept_nibbles(number@, 16)[j]
        },
{
    let mut nibbles: Vec<u8> = Vec::new();
    let ghost s = number@;
    for ch in it: number.chars()
        invariant
            s == number@,
            it.seq() == s,
            nibbles@ == take_at_most(all_nibbles(s.take(it.index() as int)), 16),
    {
        let ghost i = it.index();
        assert(s.take(i + 1).drop_last() =~= s.take(i as int));
        assert(s.take(i + 1).last() == ch);
        let nibble: Option<u8> = if '0' <= ch && ch <= '9' {
            Some((ch as u32 - 48) as u8)
        } else if ch == '*' {
            Some(10)
        } else if ch == '#' {
            Some(11)
        } else {
            None
        };
        assert(nibble == ext_nibble(ch));
        if let Some(n) = nibble {
            if nibbles.len() < 16 {
                nibbles.push(n);
            }
        }
        assert(nibbles@ =~= take_at_most(all_nibbles(s.take(i + 1)), 16));
    }
    assert(s.take(s.len() as int) =~= s);
    if nibbles.len() == 0 {
        return None;
    }
    proof {
        lemma_all_nibbles_decode(s);
    }
    let count = nibbles.len();
    let mut data: u64 = 0;
    let mut idx: usize = 0;
    proof {
        lemma_zero_shift(0);
    }
    while idx < count
        invariant
            count == nibbles@.len(),
            count <= 16,
            nibbles@ == kept_nibbles(s, 16),
            forall|j: int| 0 <= j < nibbles@.len() ==> #[trigger] nibbles@[j] <= 11,
            idx <= count,
            data << ((4 * idx) as u64) == 0,
            forall|j: int| 0 <= j < idx ==> nibble_at64(data, j) == #[trigger] nibbles@[j],
        decreases count - idx,
    {
        let n = nibbles[idx] as u64;
        let ghost old_data = data;
        proof {
            lemma_place_nibble(data, n, idx as u64);
            assert forall|j: int| 0 <= j < idx implies nibble_at64(
                data | (n << ((60 - 4 * idx) as u64)),
                j,
            ) == #[trigger] nibbles@[j] by {
                lemma_place_nibble_keeps(data, n, idx as u64, j as u64);
            }
        }
        data = data | (n << (60 - (idx as u64) * 4));
        idx = idx + 1;
    }
    Some(Type3FieldGeneric { field_id: EXT_SUBSCRIBER_NUM_ID, len: count * 4, data })
}

/// Reading back the first `count` nibbles gives the characters those nibbles encode.
proof fn lemma_decoded64_of_nibbles(data: u64, ns: Seq<u8>, count: nat)
    requires
        count <= ns.len(),
        forall|j: int| 0 <= j < ns.len() ==> nibble_at64(data, j) == #[trigger] ns[j],
    ensures
        decoded64(data, count) == nibbles_to_chars(ns.take(count as int)),
    decreases count,
{
    if count > 0 {
        lemma_decoded64_of_nibbles(data, ns, (count - 1) as nat);
        assert(ns.take(count as int).drop_last() =~= ns.take(count - 1));
    }
}

/// Law: decoding an encoded number gives back its first 16 dialable characters
/// (digits, `*`, `#`), in order.
pub proof fn lemma_ext_number_round_trip(number: Seq<char>, f: Type3FieldGeneric)
    requires
        f.len == 4 * kept_nibbles(number, 16).len(),
        forall|j: int|
            0 <= j < kept_nibbles(number, 16).len() ==> nibble_at64(f.data, j)
                == #[trigger] kept_nibbles(number, 16)[j],
    ensures
        decoded64(f.data, nibble_count64(f.len)) == take_at_most(
            number.filter(|c: char| is_dialable(c)),
            16,
        ),
{
    let ns = kept_nibbles(number, 16);
    let all = all_nibbles(number);
    lemma_all_nibbles_decode(number);
    assert(nibble_count64(f.len) == ns.len());
    lemma_decoded64_of_nibbles(f.data, ns, ns.len());
    assert(ns.take(ns.len() as int) =~= ns);
    // Every nibble of `all` decodes to exactly one character.
    lemma_chars_len(all);
    if all.len() > 16 {
        lemma_nibbles_to_chars_take(all, 16);
        lemma_chars_len(all.take(16));
    }
}

/// Nibbles of dialable characters each decode to one character.
proof fn lemma_chars_len(ns: Seq<u8>)
    requires
        forall|j: int| 0 <= j < ns.len() ==> #[trigger] ns[j] <= 11,
    ensures
        nibbles_to_chars(ns).len() == ns.len(),
    decreases ns.len(),
{
    if ns.len() > 0 {
        lemma_chars_len(ns.drop_last());
    }
}

} // verus!
