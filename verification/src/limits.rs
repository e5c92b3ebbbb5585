//! Revision-dependent limits and the two value-level rules of extraction:
//! length-only truncation and the 32-bit reading of the permission mask.

use vstd::prelude::*;

verus! {

/// The number of leading bytes of a password hash or seed that a security
/// handler of the given revision actually uses.
pub open spec fn max_len(revision: int) -> nat {
    if 2 <= revision <= 4 {
        32
    } else {
        48
    }
}

/// Revisions 2, 3 and 4 keep 32 bytes; every other revision keeps 48.
pub fn max_password_length(revision: i64) -> (n: usize)
    ensures
        n == max_len(revision as int),
        (revision == 2 || revision == 3 || revision == 4) ==> n == 32,
        !(revision == 2 || revision == 3 || revision == 4) ==> n == 48,
{
    match revision {
        2 | 3 | 4 => 32,
        5 | 6 => 48,
        _ => 48,
    }
}

/// The first `min(len, max)` bytes of a sequence.
pub open spec fn prefix(data: Seq<u8>, max: nat) -> Seq<u8> {
    if data.len() <= max {
        data
    } else {
        data.subrange(0, max as int)
    }
}

/// Cuts `data` at `max` bytes from the start; shorter data is kept in full.
pub fn truncate(data: &[u8], max: usize) -> (out: Vec<u8>)
    ensures
        out@ == prefix(data@, max as nat),
        out@.len() == if data@.len() <= max { data@.len() } else { max as nat },
        forall|i: int| 0 <= i < out@.len() ==> out@[i] == data@[i],
{
    let keep: usize = if data.len() <= max { data.len() } else { max };
    let mut out: Vec<u8> = Vec::with_capacity(keep);
    let mut i: usize = 0;
    while i < keep
        invariant
            keep <= data@.len(),
            i <= keep,
            out@ == data@.subrange(0, i as int),
        decreases keep - i,
    {
        out.push(data[i]);
        i = i + 1;
    }
    assert(data@.subrange(0, data@.len() as int) == data@);
    out
}

/// The value of the low 32 bits of `raw` read as a two's-complement number.
pub open spec fn low32_signed(raw: int) -> int {
    let low = raw % 0x1_0000_0000;
    if low >= 0x8000_0000 {
        low - 0x1_0000_0000
    } else {
        low
    }
}

/// Reads the stored permission mask as exactly 32 bits and widens the result
/// with its sign, so that a mask with bit 31 set comes out negative.
pub fn signed_permissions(raw: i64) -> (p: i64)
    ensures
        p == low32_signed(raw as int),
        -0x8000_0000 <= p < 0x8000_0000,
        (-0x8000_0000 <= raw < 0x8000_0000) ==> p == raw,
{
    let narrow: i32 = #[verifier::truncate] (raw as i32);
    assert(narrow as int == low32_signed(raw as int)) by (bit_vector)
        requires
            narrow == raw as i32,
    ;
    narrow as i64
}

} // verus!
