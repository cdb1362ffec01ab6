//! Tenant and timeline identifiers (128-bit, canonical form 32 lowercase hex
//! digits) and log sequence numbers.
use vstd::prelude::*;
use crate::text::{
    all_hex, hex_digit, hex_value, is_hex_digit, lemma_hex_value_bound, lemma_pow16_32,
    lemma_pow16_mono, pow16,
};

verus! {

/// Reads exactly 32 hexadecimal digits (either case) as a 128-bit number.
pub fn parse_hex_id(s: &[u8]) -> (r: Option<u128>)
    ensures
        r is Some <==> (s@.len() == 32 && all_hex(s@)),
        r matches Some(v) ==> v as nat == hex_value(s@),
{
    if s.len() != 32 {
        return None;
    }
    let mut v: u128 = 0;
    let mut i: usize = 0;
    while i < 32
        invariant
            s@.len() == 32,
            i <= 32,
            all_hex(s@.subrange(0, i as int)),
            v as nat == hex_value(s@.subrange(0, i as int)),
        decreases 32 - i,
    {
        let d = match hex_digit(s[i]) {
            Some(d) => d,
            None => {
                assert(!is_hex_digit(s@[i as int]));
                return None;
            },
        };
        let ghost prev = s@.subrange(0, i as int);
        let ghost next = s@.subrange(0, i + 1);
        assert(next.drop_last() =~= prev);
        assert(next.last() == s@[i as int]);
        proof {
            lemma_hex_value_bound(prev);
            lemma_pow16_mono(i as nat, 31);
            lemma_pow16_32();
            assert(pow16(32) == 16 * pow16(31));
        }
        v = v * 16 + d as u128;
        assert(all_hex(next)) by {
            assert forall|j: int| 0 <= j < next.len() implies is_hex_digit(#[trigger] next[j]) by {
                if j < i {
                    assert(next[j] == prev[j]);
                }
            }
        }
        i += 1;
    }
    assert(s@.subrange(0, 32) =~= s@);
    Some(v)
}

pub open spec fn hex_char(d: nat) -> u8 {
    if d < 10 {
        (48 + d) as u8
    } else {
        (87 + d) as u8
    }
}

/// The `n` lowest hexadecimal digits of `v`, lowercase, most significant first.
pub open spec fn hex_digits(v: nat, n: nat) -> Seq<u8>
    decreases n,
{
    if n == 0 {
        Seq::empty()
    } else {
        hex_digits(v / 16, (n - 1) as nat).push(hex_char(v % 16))
    }
}

/// Writes the 32 lowercase hexadecimal digits of a 128-bit number.
pub fn format_hex_id(v: u128) -> (r: Vec<u8>)
    ensures
        r@ == hex_digits(v as nat, 32),
{
    let mut r: Vec<u8> = Vec::new();
    let mut w: u128 = v;
    let mut k: usize = 0;
    while k < 32
        invariant
            k <= 32,
            hex_digits(v as nat, 32) == hex_digits(w as nat, (32 - k) as nat) + r@,
        decreases 32 - k,
    {
        let d: u128 = w % 16;
        let c: u8 = if d < 10 {
            48 + d as u8
        } else {
            87 + d as u8
        };
        let ghost head = hex_digits((w / 16) as nat, (31 - k) as nat);
        assert(hex_digits(w as nat, (32 - k) as nat) == head.push(c));
        assert(head.push(c) + r@ =~= head + seq![c] + r@);
        let ghost before = r@;
        r.insert(0, c);
        assert(r@ =~= seq![c] + before);
        assert(head + seq![c] + before =~= head + r@);
        w = w / 16;
        k += 1;
    }
    assert(hex_digits(w as nat, 0) + r@ =~= r@);
    r
}

} // verus!

verus! {

/// A tenant: the isolation boundary that owns timelines.
#[derive(Clone, Copy, Debug, PartialEq, Eq, Structural, Hash)]
pub struct ZTenantId {
    pub id: u128,
}

/// A timeline: one branch of a tenant's history.
#[derive(Clone, Copy, Debug, PartialEq, Eq, Structural, Hash)]
pub struct ZTimelineId {
    pub id: u128,
}

/// A timeline together with the tenant that owns it.
#[derive(Clone, Copy, Debug, PartialEq, Eq, Structural, Hash)]
pub struct TenantTimelineId {
    pub tenant_id: ZTenantId,
    pub timeline_id: ZTimelineId,
}

impl ZTenantId {
    /// Parses the 32 hexadecimal digits of an identifier.
    pub fn from_hex(s: &[u8]) -> (r: Option<ZTenantId>)
        ensures
            r is Some <==> (s@.len() == 32 && all_hex(s@)),
            r matches Some(t) ==> t.id as nat == hex_value(s@),
    {
        match parse_hex_id(s) {
            Some(v) => Some(ZTenantId { id: v }),
            None => None,
        }
    }

    /// The canonical form: 32 lowercase hexadecimal digits.
    pub fn to_hex(&self) -> (r: Vec<u8>)
        ensures
            r@ == hex_digits(self.id as nat, 32),
    {
        format_hex_id(self.id)
    }

    /// Reads an identifier from its 16 raw bytes, most significant first.
    pub fn from_slice(b: &[u8]) -> (r: Option<ZTenantId>)
        ensures
            r is Some <==> b@.len() == 16,
            r matches Some(t) ==> t.id as nat == be_value(b@),
    {
        match u128_from_be(b) {
            Some(v) => Some(ZTenantId { id: v }),
            None => None,
        }
    }
}

impl ZTimelineId {
    /// Parses the 32 hexadecimal digits of an identifier.
    pub fn from_hex(s: &[u8]) -> (r: Option<ZTimelineId>)
        ensures
            r is Some <==> (s@.len() == 32 && all_hex(s@)),
            r matches Some(t) ==> t.id as nat == hex_value(s@),
    {
        match parse_hex_id(s) {
            Some(v) => Some(ZTimelineId { id: v }),
            None => None,
        }
    }

    /// The canonical form: 32 lowercase hexadecimal digits.
    pub fn to_hex(&self) -> (r: Vec<u8>)
        ensures
            r@ == hex_digits(self.id as nat, 32),
    {
        format_hex_id(self.id)
    }

    /// Reads an identifier from its 16 raw bytes, most significant first.
    pub fn from_slice(b: &[u8]) -> (r: Option<ZTimelineId>)
        ensures
            r is Some <==> b@.len() == 16,
            r matches Some(t) ==> t.id as nat == be_value(b@),
    {
        match u128_from_be(b) {
            Some(v) => Some(ZTimelineId { id: v }),
            None => None,
        }
    }
}

/// The number that a byte string spells in base 256, most significant first.
pub open spec fn be_value(s: Seq<u8>) -> nat
    decreases s.len(),
{
    if s.len() == 0 {
        0
    } else {
        be_value(s.drop_last()) * 256 + s.last() as nat
    }
}

pub open spec fn pow256(n: nat) -> nat
    decreases n,
{
    if n == 0 {
        1
    } else {
        256 * pow256((n - 1) as nat)
    }
}

proof fn lemma_be_value_bound(s: Seq<u8>)
    ensures
        be_value(s) < pow256(s.len()),
    decreases s.len(),
{
    if s.len() > 0 {
        lemma_be_value_bound(s.drop_last());
    }
}

proof fn lemma_pow256_mono(a: nat, b: nat)
    requires
        a <= b,
    ensures
        pow256(a) <= pow256(b),
    decreases b,
{
    if a < b {
        lemma_pow256_mono(a, (b - 1) as nat);
    }
}

fn u128_from_be(b: &[u8]) -> (r: Option<u128>)
    ensures
        r is Some <==> b@.len() == 16,
        r matches Some(v) ==> v as nat == be_value(b@),
{
    if b.len() != 16 {
        return None;
    }
    let mut v: u128 = 0;
    let mut i: usize = 0;
    while i < 16
        invariant
            b@.len() == 16,
            i <= 16,
            v as nat == be_value(b@.subrange(0, i as int)),
        decreases 16 - i,
    {
        let ghost prev = b@.subrange(0, i as int);
        let ghost next = b@.subrange(0, i + 1);
        assert(next.drop_last() =~= prev);
        proof {
            lemma_be_value_bound(prev);
            lemma_pow256_mono(i as nat, 15);
            reveal_with_fuel(pow256, 17);
        }
        v = v * 256 + b[i] as u128;
        i += 1;
    }
    assert(b@.subrange(0, 16) =~= b@);
    Some(v)
}

} // verus!
