//! The External Subscriber Number element (ETSI EN 300 392-2 clause 14.8.21): a dialled
//! number as BCD-like nibbles, with `*` as 0xA and `#` as 0xB.
use vstd::prelude::*;

verus! {

/// The nibble a dialled character is encoded as; `None` for characters that are skipped.
pub open spec fn ext_nibble(c: char) -> Option<u8> {
    if '0' <= c && c <= '9' {
        Some((c as int - '0' as int) as u8)
    } else if c == '*' {
        Some(10u8)
    } else if c == '#' {
        Some(11u8)
    } else {
        None
    }
}

/// The character a nibble decodes to; filler nibbles (0xC..=0xF) decode to nothing.
pub open spec fn nibble_char(n: u8) -> Option<char> {
    if n <= 9 {
        Some(((n as int) + ('0' as int)) as char)
    } else if n == 10 {
        Some('*')
    } else if n == 11 {
        Some('#')
    } else {
        None
    }
}

/// True for the characters the element can carry.
pub open spec fn is_dialable(c: char) -> bool {
    ext_nibble(c) is Some
}

/// The nibbles of every encodable character of `s`, in order.
pub open spec fn all_nibbles(s: Seq<char>) -> Seq<u8>
    decreases s.len(),
{
    if s.len() == 0 {
        Seq::empty()
    } else {
        let rest = all_nibbles(s.drop_last());
        match ext_nibble(s.last()) {
            Some(n) => rest.push(n),
            None => rest,
        }
    }
}

/// At most `max` leading elements.
pub open spec fn take_at_most<A>(s: Seq<A>, max: nat) -> Seq<A> {
    if s.len() <= max { s } else { s.take(max as int) }
}

/// The nibbles an encoder keeps: those of the first `max` encodable characters.
pub open spec fn kept_nibbles(s: Seq<char>, max: nat) -> Seq<u8> {
    take_at_most(all_nibbles(s), max)
}

/// Decoded characters of a nibble sequence (filler nibbles dropped).
pub open spec fn nibbles_to_chars(ns: Seq<u8>) -> Seq<char>
    decreases ns.len(),
{
    if ns.len() == 0 {
        Seq::empty()
    } else {
        let rest = nibbles_to_chars(ns.drop_last());
        match nibble_char(ns.last()) {
            Some(c) => rest.push(c),
            None => rest,
        }
    }
}

pub proof fn lemma_nibble_char_of_ext_nibble(c: char)
    requires
        is_dialable(c),
    ensures
        ext_nibble(c).unwrap() <= 11,
        nibble_char(ext_nibble(c).unwrap()) == Some(c),
{
}

/// Decoding the nibbles of a string gives back exactly its dialable characters.
pub proof fn lemma_all_nibbles_decode(s: Seq<char>)
    ensures
        nibbles_to_chars(all_nibbles(s)) == s.filter(|c: char| is_dialable(c)),
        forall|i: int| 0 <= i < all_nibbles(s).len() ==> #[trigger] all_nibbles(s)[i] <= 11,
    decreases s.len(),
{
    reveal_with_fuel(Seq::filter, 1);
    if s.len() > 0 {
        lemma_all_nibbles_decode(s.drop_last());
        let rest = all_nibbles(s.drop_last());
        match ext_nibble(s.last()) {
            Some(n) => {
                lemma_nibble_char_of_ext_nibble(s.last());
                assert(all_nibbles(s).drop_last() =~= rest);
            },
            None => {},
        }
    }
}

/// Decoding a prefix of a nibble sequence gives a prefix of the decoded characters.
pub proof fn lemma_nibbles_to_chars_take(ns: Seq<u8>, k: int)
    requires
        0 <= k <= ns.len(),
    ensures
        nibbles_to_chars(ns.take(k)).len() <= nibbles_to_chars(ns).len(),
        nibbles_to_chars(ns.take(k)) == nibbles_to_chars(ns).take(
            nibbles_to_chars(ns.take(k)).len() as int,
        ),
    decreases ns.len(),
{
    if k < ns.len() {
        assert(ns.drop_last().take(k) =~= ns.take(k));
        lemma_nibbles_to_chars_take(ns.drop_last(), k);
    } else {
        assert(ns.take(k) =~= ns);
    }
}

} // verus!
