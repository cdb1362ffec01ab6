//! Log sequence numbers and their textual form `X/Y` (two 32-bit halves in hex).
use vstd::prelude::*;
use crate::text::{all_hex, copy_range, hex_value, parse_hex_u64};

verus! {

/// A position in the write-ahead log; `Lsn(0)` means "unset".
#[derive(Clone, Copy, Debug, PartialEq, Eq, Structural, Hash)]
pub struct Lsn(pub u64);

/// The first index at or after `from` that holds `c`, or -1.
pub open spec fn find_byte(s: Seq<u8>, c: u8, from: int) -> int
    decreases s.len() - from,
{
    if from < 0 || from >= s.len() {
        -1
    } else if s[from] == c {
        from
    } else {
        find_byte(s, c, from + 1)
    }
}

pub proof fn lemma_find_byte_found(s: Seq<u8>, c: u8, from: int)
    requires
        0 <= from,
    ensures
        find_byte(s, c, from) == -1 || (from <= find_byte(s, c, from) < s.len() && s[find_byte(
            s,
            c,
            from,
        )] == c),
    decreases s.len() - from,
{
    if from < s.len() && s[from] != c {
        lemma_find_byte_found(s, c, from + 1);
    }
}

pub fn find_byte_from(s: &[u8], c: u8, from: usize) -> (r: Option<usize>)
    ensures
        r matches Some(k) ==> k as int == find_byte(s@, c, from as int),
        r is None <==> find_byte(s@, c, from as int) == -1,
{
    let mut i: usize = from;
    if i >= s.len() {
        return None;
    }
    while i < s.len()
        invariant
            from <= i <= s@.len(),
            find_byte(s@, c, from as int) == find_byte(s@, c, i as int),
        decreases s@.len() - i,
    {
        if s[i] == c {
            return Some(i);
        }
        i += 1;
    }
    None
}

/// A half of the textual form: one to eight hexadecimal digits' worth of a `u32`.
pub open spec fn lsn_half_ok(s: Seq<u8>) -> bool {
    s.len() > 0 && all_hex(s) && hex_value(s) <= 0xFFFF_FFFF
}

/// What the text `X/Y` denotes, if it is well formed.
pub open spec fn lsn_of_text(s: Seq<u8>) -> Option<Lsn> {
    let k = find_byte(s, 47, 0);
    if k < 0 {
        None
    } else {
        let left = s.subrange(0, k);
        let right = s.subrange(k + 1, s.len() as int);
        if lsn_half_ok(left) && lsn_half_ok(right) {
            Some(Lsn((hex_value(left) * 0x1_0000_0000 + hex_value(right)) as u64))
        } else {
            None
        }
    }
}

impl Lsn {
    /// Parses the textual form `X/Y`, where `X` and `Y` are the high and low
    /// 32 bits in hexadecimal.
    pub fn parse(s: &[u8]) -> (r: Option<Lsn>)
        ensures
            r == lsn_of_text(s@),
    {
        let k = match find_byte_from(s, 47, 0) {
            Some(k) => k,
            None => return None,
        };
        proof {
            lemma_find_byte_found(s@, 47, 0);
        }
        assert(k < s@.len());
        let len = s.len();
        let left = copy_range(s, 0, k);
        let right = copy_range(s, len - (len - k - 1), len);
        let hi = match parse_hex_u64(left.as_slice(), 0xFFFF_FFFF) {
            Some(v) => v,
            None => return None,
        };
        let lo = match parse_hex_u64(right.as_slice(), 0xFFFF_FFFF) {
            Some(v) => v,
            None => return None,
        };
        Some(Lsn(hi * 0x1_0000_0000 + lo))
    }
}

} // verus!
