//! The decisions of a lookup in the two-layer cache. The memory layer, the disk
//! index, the files and the computation are asynchronous; their caller performs
//! each action and feeds back what happened, and `lookup_step` decides what
//! comes next: answer from memory, else read the indexed record file, else
//! compute the data, write its record and remember it.

use vstd::prelude::*;
use crate::cache::items::{cache_key_text, CacheKey};
use crate::cache::record::{
    lemma_record_roundtrip, record_bytes, record_decodable, record_payload, record_stamp,
    CachedData, RecordError,
};

verus! {

/// Where a lookup stands.
#[derive(Debug)]
pub enum LookupState {
    /// Waiting for the memory layer's answer.
    AwaitingMemory,
    /// Waiting for the disk index's answer.
    AwaitingDiskIndex,
    /// Waiting for the bytes of the indexed record file.
    AwaitingFile,
    /// Waiting for the caller's computation.
    AwaitingComputation,
    /// Waiting for the record of this data to be written and indexed.
    AwaitingWrite(CachedData),
    /// The lookup has answered or failed.
    Done,
}

/// What happened to the last action.
#[derive(Debug)]
pub enum LookupEvent {
    /// The memory layer holds this data for the key.
    MemoryHit(CachedData),
    /// The memory layer does not hold the key.
    MemoryMiss,
    /// The disk index has a file for the key.
    DiskIndexHit,
    /// The disk index has no file for the key.
    DiskIndexMiss,
    /// The indexed file holds these bytes.
    FileRead(Vec<u8>),
    /// The indexed file could not be read.
    FileReadFailed,
    /// The computation produced this data.
    Computed(CachedData),
    /// The record file was written and indexed.
    FileWritten,
    /// The record file could not be written.
    FileWriteFailed,
}

/// Why a lookup failed.
#[derive(Clone, Copy, Debug, PartialEq, Eq, Structural)]
pub enum LookupError {
    /// A file could not be read or written.
    Io,
    /// A record file did not hold a complete record.
    Record(RecordError),
    /// An event arrived that the lookup was not waiting for.
    UnexpectedEvent,
}

/// What the caller does next.
#[derive(Debug)]
pub enum LookupAction {
    /// Ask the memory layer for the key.
    QueryMemory,
    /// Ask the disk index for the key's file.
    QueryDiskIndex,
    /// Read the file that the disk index named.
    ReadIndexedFile,
    /// Run the caller's computation.
    Compute,
    /// Write these record bytes to the file at this path (relative to the disk
    /// layer's directory) and index it under the key.
    WriteRecord(String, Vec<u8>),
    /// Answer with this data, which came from memory.
    Answer(CachedData),
    /// Store this data in the memory layer and answer with it.
    RememberAndAnswer(CachedData),
    /// Answer with this error.
    Fail(LookupError),
}

/// How many steps a lookup in this state can still take at most.
pub open spec fn steps_left(s: LookupState) -> nat {
    match s {
        LookupState::AwaitingMemory => 4,
        LookupState::AwaitingDiskIndex => 3,
        LookupState::AwaitingComputation => 2,
        LookupState::AwaitingFile => 1,
        LookupState::AwaitingWrite(_) => 1,
        LookupState::Done => 0,
    }
}

/// Whether `event` is one that a lookup in `state` is waiting for.
pub open spec fn expected(state: LookupState, event: LookupEvent) -> bool {
    match state {
        LookupState::AwaitingMemory => event is MemoryHit || event is MemoryMiss,
        LookupState::AwaitingDiskIndex => event is DiskIndexHit || event is DiskIndexMiss,
        LookupState::AwaitingFile => event is FileRead || event is FileReadFailed,
        LookupState::AwaitingComputation => event is Computed,
        LookupState::AwaitingWrite(_) => event is FileWritten || event is FileWriteFailed,
        LookupState::Done => false,
    }
}

/// What a lookup that reads the file bytes `buf` answers with: the bytes and
/// registration time of the record at the start of `buf`, if there is one.
pub open spec fn file_read_outcome(buf: Seq<u8>) -> Option<(Seq<u8>, u64)> {
    if record_decodable(buf) {
        Some((record_payload(buf), record_stamp(buf)))
    } else {
        None
    }
}

/// A lookup starts by asking the memory layer.
pub fn lookup_start() -> (r: (LookupState, LookupAction))
    ensures
        r.0 is AwaitingMemory,
        r.1 is QueryMemory,
{
    (LookupState::AwaitingMemory, LookupAction::QueryMemory)
}

/// The next state and action of a lookup of `key` in `state` after `event`.
pub fn lookup_step(key: &CacheKey, state: LookupState, event: LookupEvent) -> (r: (
    LookupState,
    LookupAction,
))
    ensures
        // every step brings the lookup closer to its end
        steps_left(state) > 0 ==> steps_left(r.0) < steps_left(state),
        state is Done ==> r.0 is Done,
        // an event the lookup is not waiting for ends it
        !expected(state, event) ==> r.0 is Done && r.1 == LookupAction::Fail(
            LookupError::UnexpectedEvent,
        ),
        // memory answers first
        state is AwaitingMemory && event is MemoryHit ==> r.0 is Done && r.1 == LookupAction::Answer(
            event->MemoryHit_0,
        ),
        state is AwaitingMemory && event is MemoryMiss ==> r.0 is AwaitingDiskIndex
            && r.1 is QueryDiskIndex,
        // then the disk
        state is AwaitingDiskIndex && event is DiskIndexHit ==> r.0 is AwaitingFile
            && r.1 is ReadIndexedFile,
        state is AwaitingFile && event is FileRead ==> r.0 is Done && match file_read_outcome(
            event->FileRead_0@,
        ) {
            Some(p) => r.1 is RememberAndAnswer && r.1->RememberAndAnswer_0.bytes@ == p.0
                && r.1->RememberAndAnswer_0.registered_at == p.1,
            None => r.1 == LookupAction::Fail(LookupError::Record(RecordError::Decode)),
        },
        state is AwaitingFile && event is FileReadFailed ==> r.0 is Done && r.1
            == LookupAction::Fail(LookupError::Io),
        // the computation runs exactly when both layers missed
        r.1 is Compute <==> (state is AwaitingDiskIndex && event is DiskIndexMiss),
        state is AwaitingDiskIndex && event is DiskIndexMiss ==> r.0 is AwaitingComputation,
        // computed data is written under the key's path, then remembered
        state is AwaitingComputation && event is Computed ==> r.1 is WriteRecord && r.0
            is AwaitingWrite && r.0->AwaitingWrite_0 == event->Computed_0 && r.1->WriteRecord_0@
            == cache_key_text(*key) && r.1->WriteRecord_1@ == record_bytes(
            event->Computed_0.bytes@,
            event->Computed_0.registered_at,
        ),
        state is AwaitingWrite && event is FileWritten ==> r.0 is Done && r.1
            == LookupAction::RememberAndAnswer(state->AwaitingWrite_0),
        state is AwaitingWrite && event is FileWriteFailed ==> r.0 is Done && r.1
            == LookupAction::Fail(LookupError::Io),
{
    match (state, event) {
        (LookupState::AwaitingMemory, LookupEvent::MemoryHit(d)) => (
            LookupState::Done,
            LookupAction::Answer(d),
        ),
        (LookupState::AwaitingMemory, LookupEvent::MemoryMiss) => (
            LookupState::AwaitingDiskIndex,
            LookupAction::QueryDiskIndex,
        ),
        (LookupState::AwaitingDiskIndex, LookupEvent::DiskIndexHit) => (
            LookupState::AwaitingFile,
            LookupAction::ReadIndexedFile,
        ),
        (LookupState::AwaitingDiskIndex, LookupEvent::DiskIndexMiss) => (
            LookupState::AwaitingComputation,
            LookupAction::Compute,
        ),
        (LookupState::AwaitingFile, LookupEvent::FileRead(buf)) => {
            match CachedData::from_record(buf.as_slice()) {
                Ok(d) => (LookupState::Done, LookupAction::RememberAndAnswer(d)),
                Err(e) => (LookupState::Done, LookupAction::Fail(LookupError::Record(e))),
            }
        },
        (LookupState::AwaitingFile, LookupEvent::FileReadFailed) => (
            LookupState::Done,
            LookupAction::Fail(LookupError::Io),
        ),
        (LookupState::AwaitingComputation, LookupEvent::Computed(d)) => {
            let bytes = d.to_record();
            let path = key.to_string();
            (LookupState::AwaitingWrite(d), LookupAction::WriteRecord(path, bytes))
        },
        (LookupState::AwaitingWrite(d), LookupEvent::FileWritten) => (
            LookupState::Done,
            LookupAction::RememberAndAnswer(d),
        ),
        (LookupState::AwaitingWrite(_), LookupEvent::FileWriteFailed) => (
            LookupState::Done,
            LookupAction::Fail(LookupError::Io),
        ),
        _ => (LookupState::Done, LookupAction::Fail(LookupError::UnexpectedEvent)),
    }
}

/// A second lookup gives back what the first stored: the record bytes that a
/// lookup writes after computing `bytes` registered at `registered_at` (see
/// `lookup_step`), once read by a later lookup, make it answer with exactly
/// `bytes` and `registered_at`.
pub proof fn lemma_stored_record_reads_back(bytes: Seq<u8>, registered_at: u64)
    requires
        bytes.len() <= u64::MAX,
    ensures
        file_read_outcome(record_bytes(bytes, registered_at)) == Some((bytes, registered_at)),
{
    lemma_record_roundtrip(bytes, registered_at, Seq::<u8>::empty());
    assert(record_bytes(bytes, registered_at) + Seq::<u8>::empty() =~= record_bytes(
        bytes,
        registered_at,
    ));
}

} // verus!
