//! The record format of the key/value store: a checksummed header followed
//! by the key and the value, plus the parity helper used by its tests.
//!
//! Every record is laid out as a fixed header — checksum, key length, value
//! length, each four bytes little-endian — followed by the key bytes and
//! the value bytes.  The store itself does file seeks and reads at the
//! crate's boundary; the encoding and decoding of records on plain bytes is
//! what lives, verified, here.

use vstd::prelude::*;
use vstd::slice::{slice_subrange, slice_to_vec};

verus! {

/// A key paired with its value, both plain bytes.
#[derive(Debug)]
pub struct Pair {
    pub key: Vec<u8>,
    pub value: Vec<u8>,
}

/// How many one bits a number's binary form holds.
pub open spec fn spec_ones(n: nat) -> nat
    decreases n,
{
    if n == 0 {
        0
    } else {
        spec_ones(n / 2) + n % 2
    }
}

/// The one bits of a whole byte string.
pub open spec fn sum_ones(s: Seq<u8>) -> nat
    decreases s.len(),
{
    if s.len() == 0 {
        0
    } else {
        sum_ones(s.drop_last()) + spec_ones(s.last() as nat)
    }
}

/// A number has at most as many one bits as its value.
proof fn lemma_spec_ones_le(n: nat)
    ensures
        spec_ones(n) <= n,
    decreases n,
{
    if n > 0 {
        lemma_spec_ones_le(n / 2);
    }
}

/// Counts the one bits of a byte.
fn ones_in_byte(b: u8) -> (n: u32)
    ensures
        n == spec_ones(b as nat),
        n <= 255,
{
    proof {
        lemma_spec_ones_le(b as nat);
    }
    let mut v: u32 = b as u32;
    let mut n: u32 = 0;
    while v > 0
        invariant
            n + spec_ones(v as nat) == spec_ones(b as nat),
            spec_ones(b as nat) <= 255,
            v <= 255,
        decreases v,
    {
        proof {
            lemma_spec_ones_le(v as nat);
        }
        n = n + v % 2;
        v = v / 2;
    }
    n
}

/// The even-parity bit of a byte string: 1 when the number of one bits is
/// even, 0 when it is odd.
pub fn parity_bit(bytes: &[u8]) -> (p: u8)
    ensures
        p == (if sum_ones(bytes@) % 2 == 0 {
            1u8
        } else {
            0u8
        }),
{
    let mut one_count: u32 = 0;
    let mut i: usize = 0;
    while i < bytes.len()
        invariant
            i <= bytes@.len(),
            one_count == sum_ones(bytes@.subrange(0, i as int)) % 2,
        decreases bytes@.len() - i,
    {
        proof {
            assert(bytes@.subrange(0, i + 1).drop_last() =~= bytes@.subrange(0, i as int));
            assert(bytes@.subrange(0, i + 1).last() == bytes@[i as int]);
        }
        let ones = ones_in_byte(*vstd::slice::slice_index_get(bytes, i));
        one_count = (one_count + ones) % 2;
        i = i + 1;
    }
    proof {
        assert(bytes@.subrange(0, bytes@.len() as int) =~= bytes@);
    }
    if one_count == 0 {
        1
    } else {
        0
    }
}

/// What the CRC-32 (ISO-HDLC polynomial) of a byte string is.  The
/// algorithm takes pages to state; the digest depends on the bytes alone,
/// so it gets a name.
pub uninterp spec fn crc32_of(data: Seq<u8>) -> u32;

/// Relies on crc's `Crc::<u32>::checksum` with the `CRC_32_ISO_HDLC`
/// algorithm: the digest of the bytes, a function of the bytes alone.
#[verifier::external_body]
fn crc32_ieee(data: &[u8]) -> (r: u32)
    ensures
        r == crc32_of(data@),
{
    let checksum_ieee = crc::Crc::<u32>::new(&crc::CRC_32_ISO_HDLC);
    checksum_ieee.checksum(data)
}

/// The four little-endian bytes of a 32-bit value.
pub open spec fn le32(n: nat) -> Seq<u8> {
    seq![
        (n % 256) as u8,
        (n / 256 % 256) as u8,
        (n / 65536 % 256) as u8,
        (n / 16777216 % 256) as u8,
    ]
}

/// The value of four little-endian bytes.
pub open spec fn le_val(s: Seq<u8>) -> nat
    recommends
        s.len() == 4,
{
    s[0] as nat + s[1] as nat * 256 + s[2] as nat * 65536 + s[3] as nat * 16777216
}

/// Appends the four little-endian bytes of `n`.
fn push_u32_le(out: &mut Vec<u8>, n: u32)
    ensures
        final(out)@ == old(out)@ + le32(n as nat),
{
    out.push((n % 256) as u8);
    out.push((n / 256 % 256) as u8);
    out.push((n / 65536 % 256) as u8);
    out.push((n / 16777216 % 256) as u8);
    proof {
        assert(out@ =~= old(out)@ + le32(n as nat));
    }
}

/// Reads the little-endian 32-bit value at `off`.
fn read_u32_le(data: &[u8], off: usize) -> (r: u32)
    requires
        off + 4 <= data@.len(),
    ensures
        r == le_val(data@.subrange(off as int, off + 4)),
{
    let n = data.len();
    assert(off + 4 <= n);
    let b0 = *vstd::slice::slice_index_get(data, off);
    let b1 = *vstd::slice::slice_index_get(data, off + 1);
    let b2 = *vstd::slice::slice_index_get(data, off + 2);
    let b3 = *vstd::slice::slice_index_get(data, off + 3);
    b0 as u32 + b1 as u32 * 256 + b2 as u32 * 65536 + b3 as u32 * 16777216
}

/// What decoding a record can report: the bytes end before the record
/// does, or the stored checksum does not match the body.
#[derive(Clone, Copy, Debug, PartialEq, Eq, Structural)]
pub enum RecordError {
    /// The bytes end before the full record.
    Truncated,
    /// The stored checksum differs from the body's digest.  The store at
    /// the crate's boundary decides whether that is fatal.
    ChecksumMismatch,
}

/// Encodes one record: the body's checksum, the two lengths, then the key
/// and the value.
pub fn encode_record(key: &[u8], value: &[u8]) -> (r: Vec<u8>)
    requires
        key@.len() + value@.len() <= u32::MAX,
    ensures
        r@ == le32(crc32_of(key@ + value@) as nat) + le32(key@.len()) + le32(value@.len()) + key@
            + value@,
{
    let mut body: Vec<u8> = slice_to_vec(key);
    let mut tail: Vec<u8> = slice_to_vec(value);
    body.append(&mut tail);
    proof {
        assert(body@ =~= key@ + value@);
    }
    let checksum = crc32_ieee(body.as_slice());

    let mut out: Vec<u8> = Vec::new();
    push_u32_le(&mut out, checksum);
    push_u32_le(&mut out, key.len() as u32);
    push_u32_le(&mut out, value.len() as u32);
    let mut rest = body;
    out.append(&mut rest);
    proof {
        assert(out@ =~= le32(crc32_of(key@ + value@) as nat) + le32(key@.len()) + le32(
            value@.len(),
        ) + key@ + value@);
    }
    out
}

/// Decodes the record at the front of `data`: the pair and how many bytes
/// the record occupied.  Reports `Truncated` exactly when the bytes end
/// before the header or body does, and `ChecksumMismatch` exactly when the
/// stored checksum is not the body's digest.
pub fn process_record(data: &[u8]) -> (r: Result<(Pair, usize), RecordError>)
    ensures
        data@.len() < 12 ==> r == Err::<(Pair, usize), RecordError>(RecordError::Truncated),
        data@.len() >= 12 ==> {
            let kl = le_val(data@.subrange(4, 8));
            let vl = le_val(data@.subrange(8, 12));
            if 12 + kl + vl > data@.len() {
                r == Err::<(Pair, usize), RecordError>(RecordError::Truncated)
            } else {
                let key = data@.subrange(12, 12 + kl as int);
                let value = data@.subrange(12 + kl as int, 12 + kl as int + vl as int);
                if crc32_of(key + value) != le_val(data@.subrange(0, 4)) {
                    r == Err::<(Pair, usize), RecordError>(RecordError::ChecksumMismatch)
                } else {
                    r matches Ok((pair, used)) && pair.key@ == key && pair.value@ == value && used
                        == 12 + kl + vl
                }
            }
        },
{
    if data.len() < 12 {
        return Err(RecordError::Truncated);
    }
    let checksum = read_u32_le(data, 0);
    let key_len = read_u32_le(data, 4);
    let val_len = read_u32_le(data, 8);

    let total: u64 = 12 + key_len as u64 + val_len as u64;
    if total > data.len() as u64 {
        return Err(RecordError::Truncated);
    }
    let key_end: usize = 12 + key_len as usize;
    let body_end: usize = key_end + val_len as usize;

    let body = slice_subrange(data, 12, body_end);
    let computed = crc32_ieee(body);
    proof {
        assert(body@ =~= data@.subrange(12, 12 + key_len + val_len));
        assert(data@.subrange(12, 12 + key_len as int) + data@.subrange(
            12 + key_len as int,
            12 + key_len + val_len,
        ) =~= body@);
    }
    if computed != checksum {
        return Err(RecordError::ChecksumMismatch);
    }

    let key = slice_to_vec(slice_subrange(data, 12, key_end));
    let value = slice_to_vec(slice_subrange(data, key_end, body_end));

    Ok((Pair { key, value }, body_end))
}

} // verus!
