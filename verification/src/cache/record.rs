//! Cached data and the record format in which the disk layer stores it.

use vstd::prelude::*;
use vstd::bytes::{spec_u64_from_le_bytes, spec_u64_to_le_bytes, lemma_auto_spec_u64_to_from_le_bytes};

verus! {

/// The error value of `bincode`'s encoder and decoder.
#[verifier::external_type_specification]
#[verifier::external_body]
pub struct ExBincodeErrorKind(bincode::ErrorKind);

/// Bytes held by the cache for one key, with the time they were registered.
#[derive(Clone, Debug)]
pub struct CachedData {
    pub bytes: Vec<u8>,
    pub registered_at: u64,
}

/// Why a record could not be read.
#[derive(Clone, Copy, Debug, PartialEq, Eq, Structural)]
pub enum RecordError {
    /// The bytes are not a complete record.
    Decode,
}

/// The record of `bytes` registered at `registered_at`: the byte count as a
/// little-endian `u64`, the bytes, then the time as a little-endian `u64`.
pub open spec fn record_bytes(bytes: Seq<u8>, registered_at: u64) -> Seq<u8> {
    spec_u64_to_le_bytes(bytes.len() as u64) + bytes + spec_u64_to_le_bytes(registered_at)
}

/// The byte count that a record announces in its first eight bytes.
pub open spec fn record_len(buf: Seq<u8>) -> int {
    spec_u64_from_le_bytes(buf.take(8)) as int
}

/// Whether `buf` starts with a complete record (anything after it is ignored).
pub open spec fn record_decodable(buf: Seq<u8>) -> bool {
    buf.len() >= 8 && 8 + record_len(buf) + 8 <= buf.len()
}

/// The bytes carried by the record at the start of `buf`.
pub open spec fn record_payload(buf: Seq<u8>) -> Seq<u8> {
    buf.subrange(8, 8 + record_len(buf))
}

/// The registration time carried by the record at the start of `buf`.
pub open spec fn record_stamp(buf: Seq<u8>) -> u64 {
    spec_u64_from_le_bytes(buf.subrange(8 + record_len(buf), 16 + record_len(buf)))
}

/// Calls `bincode::serialize` on the pair `(bytes, registered_at)`. Under
/// bincode's default options a byte vector is written as its length (a
/// little-endian `u64`) followed by its bytes, and a `u64` as eight
/// little-endian bytes. With no size limit and a `Vec` as the output, which
/// accepts every write, the call always succeeds; the contract claims success
/// and that layout.
#[verifier::external_body]
fn bincode_serialize_record(bytes: &Vec<u8>, registered_at: u64) -> (r: Result<
    Vec<u8>,
    bincode::Error,
>)
    ensures
        r is Ok,
        r matches Ok(b) ==> b@ == record_bytes(bytes@, registered_at),
{
    bincode::serialize(&(bytes, registered_at))
}

/// Calls `bincode::deserialize` for the pair `(Vec<u8>, u64)`. With bincode's
/// default options it reads a little-endian `u64` length, that many bytes and
/// a little-endian `u64`, fails when the input ends first, and ignores bytes
/// after the pair; the contract claims exactly that.
#[verifier::external_body]
fn bincode_deserialize_record(buf: &[u8]) -> (r: Result<(Vec<u8>, u64), bincode::Error>)
    ensures
        r is Ok <==> record_decodable(buf@),
        r matches Ok(p) ==> p.0@ == record_payload(buf@) && p.1 == record_stamp(buf@),
{
    bincode::deserialize::<(Vec<u8>, u64)>(buf)
}

impl CachedData {
    /// Data registered at `registered_at`.
    pub fn new(bytes: Vec<u8>, registered_at: u64) -> (d: CachedData)
        ensures
            d.bytes@ == bytes@,
            d.registered_at == registered_at,
    {
        CachedData { bytes, registered_at }
    }

    /// The record under which the disk layer stores this data.
    pub fn to_record(&self) -> (b: Vec<u8>)
        ensures
            b@ == record_bytes(self.bytes@, self.registered_at),
    {
        match bincode_serialize_record(&self.bytes, self.registered_at) {
            Ok(b) => b,
            Err(_) => {
                proof {
                    assert(false);
                }
                Vec::new()
            },
        }
    }

    /// The data held by the record at the start of `buf`.
    pub fn from_record(buf: &[u8]) -> (r: Result<CachedData, RecordError>)
        ensures
            r is Ok <==> record_decodable(buf@),
            r matches Ok(d) ==> d.bytes@ == record_payload(buf@) && d.registered_at
                == record_stamp(buf@),
            r matches Err(e) ==> e == RecordError::Decode,
    {
        match bincode_deserialize_record(buf) {
            Ok(p) => Ok(CachedData { bytes: p.0, registered_at: p.1 }),
            Err(_) => Err(RecordError::Decode),
        }
    }
}

/// Reading a record gives back what was written: the record of `bytes` and
/// `registered_at` is decodable, also with anything appended after it, and
/// carries exactly `bytes` and `registered_at`.
pub proof fn lemma_record_roundtrip(bytes: Seq<u8>, registered_at: u64, rest: Seq<u8>)
    requires
        bytes.len() <= u64::MAX,
    ensures
        record_decodable(record_bytes(bytes, registered_at) + rest),
        record_payload(record_bytes(bytes, registered_at) + rest) == bytes,
        record_stamp(record_bytes(bytes, registered_at) + rest) == registered_at,
{
    lemma_auto_spec_u64_to_from_le_bytes();
    let len = spec_u64_to_le_bytes(bytes.len() as u64);
    let stamp = spec_u64_to_le_bytes(registered_at);
    let buf = record_bytes(bytes, registered_at) + rest;
    assert(buf.take(8) =~= len);
    assert(record_len(buf) == bytes.len());
    let n = bytes.len() as int;
    assert(buf.subrange(8, 8 + n) =~= bytes);
    assert(buf.subrange(8 + n, 16 + n) =~= stamp);
}

} // verus!
