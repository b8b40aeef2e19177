use vstd::prelude::*;

use crate::errors::StatsError;
use crate::stats::SummaryStatistics;

verus! {

// The persistence blob is a fixed 36-byte layout: a four-byte tag naming
// the registered type, then the count and the three bit patterns, each as
// eight little-endian bytes. The tag and the length let a decoder reject
// a blob of the wrong shape; the version that routes a blob here lives in
// the host's type registration, outside the payload.

/// First tag byte, the letter N.
pub const MAGIC_0: u8 = 0x4E;

/// Second tag byte, the letter S.
pub const MAGIC_1: u8 = 0x53;

/// Third tag byte, the letter S.
pub const MAGIC_2: u8 = 0x53;

/// Fourth tag byte, the digit of the current layout.
pub const MAGIC_3: u8 = 0x31;

/// Length of every encoded summary.
pub const BLOB_LEN: usize = 36;

/// The eight little-endian bytes of a machine word.
pub open spec fn u64_le_bytes(n: u64) -> Seq<u8> {
    seq![
        (n & 0xFF) as u8,
        ((n >> 8) & 0xFF) as u8,
        ((n >> 16) & 0xFF) as u8,
        ((n >> 24) & 0xFF) as u8,
        ((n >> 32) & 0xFF) as u8,
        ((n >> 40) & 0xFF) as u8,
        ((n >> 48) & 0xFF) as u8,
        ((n >> 56) & 0xFF) as u8,
    ]
}

/// The machine word read back from eight little-endian bytes.
pub open spec fn le_bytes_val(s: Seq<u8>) -> u64
    recommends
        s.len() == 8,
{
    ((s[0] as u64) | ((s[1] as u64) << 8) | ((s[2] as u64) << 16) | ((s[3] as u64) << 24) | (
    (s[4] as u64) << 32) | ((s[5] as u64) << 40) | ((s[6] as u64) << 48) | ((s[7] as u64) << 56))
}

/// Reading the eight bytes of a word back gives the word.
pub proof fn lemma_u64_le_roundtrip(n: u64)
    ensures
        le_bytes_val(u64_le_bytes(n)) == n,
{
    assert((((n & 0xFF) as u8) as u64) | (((((n >> 8) & 0xFF) as u8) as u64) << 8) | (((((n >> 16)
        & 0xFF) as u8) as u64) << 16) | (((((n >> 24) & 0xFF) as u8) as u64) << 24) | (((((n >> 32)
        & 0xFF) as u8) as u64) << 32) | (((((n >> 40) & 0xFF) as u8) as u64) << 40) | (((((n >> 48)
        & 0xFF) as u8) as u64) << 48) | (((((n >> 56) & 0xFF) as u8) as u64) << 56) == n)
        by (bit_vector);
}

/// The full encoding of a summary.
pub open spec fn encode_spec(s: SummaryStatistics) -> Seq<u8> {
    seq![MAGIC_0, MAGIC_1, MAGIC_2, MAGIC_3] + u64_le_bytes(s.count as u64) + u64_le_bytes(s.min)
        + u64_le_bytes(s.max) + u64_le_bytes(s.sum)
}

/// What decoding a blob yields: the summary it encodes, or nothing when
/// the length or the tag is wrong, the count field does not hold a count,
/// or the fields do not form a well-formed summary.
pub open spec fn decode_spec(bytes: Seq<u8>) -> Option<SummaryStatistics> {
    if bytes.len() != 36 {
        None
    } else if !(bytes[0] == MAGIC_0 && bytes[1] == MAGIC_1 && bytes[2] == MAGIC_2 && bytes[3]
        == MAGIC_3) {
        None
    } else {
        let c = le_bytes_val(bytes.subrange(4, 12));
        if c > i64::MAX as u64 {
            None
        } else {
            let s = SummaryStatistics {
                count: c as i64,
                min: le_bytes_val(bytes.subrange(12, 20)),
                max: le_bytes_val(bytes.subrange(20, 28)),
                sum: le_bytes_val(bytes.subrange(28, 36)),
            };
            if s.wf() {
                Some(s)
            } else {
                None
            }
        }
    }
}

/// Append the eight little-endian bytes of a word.
fn push_u64_le(out: &mut Vec<u8>, n: u64)
    ensures
        final(out)@ == old(out)@ + u64_le_bytes(n),
{
    out.push((n & 0xFF) as u8);
    out.push(((n >> 8) & 0xFF) as u8);
    out.push(((n >> 16) & 0xFF) as u8);
    out.push(((n >> 24) & 0xFF) as u8);
    out.push(((n >> 32) & 0xFF) as u8);
    out.push(((n >> 40) & 0xFF) as u8);
    out.push(((n >> 48) & 0xFF) as u8);
    out.push(((n >> 56) & 0xFF) as u8);
    proof {
        assert(out@ =~= old(out)@ + u64_le_bytes(n));
    }
}

/// Read the word at an offset of a blob.
fn read_u64_le(bytes: &Vec<u8>, off: usize) -> (r: u64)
    requires
        off + 8 <= bytes@.len(),
    ensures
        r == le_bytes_val(bytes@.subrange(off as int, off as int + 8)),
{
    let n = bytes.len();
    assert(off + 8 <= n);
    let r = (bytes[off] as u64) | ((bytes[off + 1] as u64) << 8) | ((bytes[off + 2] as u64) << 16)
        | ((bytes[off + 3] as u64) << 24) | ((bytes[off + 4] as u64) << 32) | ((bytes[off + 5]
        as u64) << 40) | ((bytes[off + 6] as u64) << 48) | ((bytes[off + 7] as u64) << 56);
    proof {
        let s = bytes@.subrange(off as int, off as int + 8);
        assert(s[0] == bytes@[off as int] && s[1] == bytes@[off as int + 1] && s[2] == bytes@[off
            as int + 2] && s[3] == bytes@[off as int + 3] && s[4] == bytes@[off as int + 4] && s[5]
            == bytes@[off as int + 5] && s[6] == bytes@[off as int + 6] && s[7] == bytes@[off
            as int + 7]);
    }
    r
}

impl SummaryStatistics {
    /// Encode the summary as its persistence blob.
    pub fn encode(&self) -> (r: Vec<u8>)
        ensures
            r@ == encode_spec(*self),
    {
        let mut out: Vec<u8> = Vec::new();
        out.push(MAGIC_0);
        out.push(MAGIC_1);
        out.push(MAGIC_2);
        out.push(MAGIC_3);
        push_u64_le(&mut out, self.count as u64);
        push_u64_le(&mut out, self.min);
        push_u64_le(&mut out, self.max);
        push_u64_le(&mut out, self.sum);
        proof {
            assert(out@ =~= encode_spec(*self));
        }
        out
    }

    /// Decode a persistence blob back into a summary; a blob that does
    /// not encode a well-formed summary is reported corrupt.
    pub fn decode(bytes: &Vec<u8>) -> (r: Result<SummaryStatistics, StatsError>)
        ensures
            match r {
                Ok(s) => decode_spec(bytes@) == Some(s) && s.wf(),
                Err(e) => decode_spec(bytes@) is None && e == StatsError::CorruptPersistedValue,
            },
    {
        if bytes.len() != BLOB_LEN {
            return Err(StatsError::CorruptPersistedValue);
        }
        if !(bytes[0] == MAGIC_0 && bytes[1] == MAGIC_1 && bytes[2] == MAGIC_2 && bytes[3]
            == MAGIC_3) {
            return Err(StatsError::CorruptPersistedValue);
        }
        let c = read_u64_le(bytes, 4);
        if c > i64::MAX as u64 {
            return Err(StatsError::CorruptPersistedValue);
        }
        let s = SummaryStatistics {
            count: c as i64,
            min: read_u64_le(bytes, 12),
            max: read_u64_le(bytes, 20),
            sum: read_u64_le(bytes, 28),
        };
        if s.is_wf() {
            Ok(s)
        } else {
            Err(StatsError::CorruptPersistedValue)
        }
    }
}

/// Round trip: decoding an encoded summary gives the summary back, for
/// every well-formed summary, the identity included.
pub proof fn lemma_round_trip(s: SummaryStatistics)
    requires
        s.wf(),
    ensures
        decode_spec(encode_spec(s)) == Some(s),
{
    let e = encode_spec(s);
    lemma_u64_le_roundtrip(s.count as u64);
    lemma_u64_le_roundtrip(s.min);
    lemma_u64_le_roundtrip(s.max);
    lemma_u64_le_roundtrip(s.sum);
    assert(e.subrange(4, 12) =~= u64_le_bytes(s.count as u64));
    assert(e.subrange(12, 20) =~= u64_le_bytes(s.min));
    assert(e.subrange(20, 28) =~= u64_le_bytes(s.max));
    assert(e.subrange(28, 36) =~= u64_le_bytes(s.sum));
}

} // verus!
