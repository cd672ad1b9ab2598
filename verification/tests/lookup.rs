use nahlun_server::cache::items::{CacheDataType, CacheKey, TileId};
use nahlun_server::cache::lookup::{
    lookup_start, lookup_step, LookupAction, LookupError, LookupEvent, LookupState,
};
use nahlun_server::cache::record::{CachedData, RecordError};

fn key() -> CacheKey {
    CacheKey { data_type: CacheDataType::LandTile, tile_id: TileId::new(1, 2, 3) }
}

#[test]
fn lookup_starts_with_memory() {
    let (state, action) = lookup_start();
    assert!(matches!(state, LookupState::AwaitingMemory));
    assert!(matches!(action, LookupAction::QueryMemory));
}

#[test]
fn memory_hit_answers_without_storing() {
    let d = CachedData::new(vec![5, 6], 7);
    let (state, action) = lookup_step(&key(), LookupState::AwaitingMemory, LookupEvent::MemoryHit(d));
    assert!(matches!(state, LookupState::Done));
    match action {
        LookupAction::Answer(got) => {
            assert_eq!(got.bytes, vec![5, 6]);
            assert_eq!(got.registered_at, 7);
        }
        other => panic!("unexpected action {other:?}"),
    }
}

#[test]
fn double_miss_computes_writes_and_a_later_read_gives_it_back() {
    let k = key();
    let (state, action) = lookup_step(&k, LookupState::AwaitingMemory, LookupEvent::MemoryMiss);
    assert!(matches!(action, LookupAction::QueryDiskIndex));
    let (state, action) = lookup_step(&k, state, LookupEvent::DiskIndexMiss);
    assert!(matches!(action, LookupAction::Compute));
    let d = CachedData::new(vec![9, 8, 7, 6], 1_700_000_000);
    let (state, action) = lookup_step(&k, state, LookupEvent::Computed(d.clone()));
    let written = match action {
        LookupAction::WriteRecord(path, bytes) => {
            assert_eq!(path, "land_tile/1_2_3");
            assert_eq!(bytes, d.to_record());
            bytes
        }
        other => panic!("unexpected action {other:?}"),
    };
    let (state, action) = lookup_step(&k, state, LookupEvent::FileWritten);
    assert!(matches!(state, LookupState::Done));
    assert!(matches!(action, LookupAction::RememberAndAnswer(ref got) if got.bytes == d.bytes));

    // a later lookup, after the memory layer forgot the entry
    let (state, _) = lookup_step(&k, LookupState::AwaitingMemory, LookupEvent::MemoryMiss);
    let (state, action) = lookup_step(&k, state, LookupEvent::DiskIndexHit);
    assert!(matches!(action, LookupAction::ReadIndexedFile));
    let (state, action) = lookup_step(&k, state, LookupEvent::FileRead(written));
    assert!(matches!(state, LookupState::Done));
    match action {
        LookupAction::RememberAndAnswer(got) => {
            assert_eq!(got.bytes, d.bytes);
            assert_eq!(got.registered_at, d.registered_at);
        }
        other => panic!("unexpected action {other:?}"),
    }
}

#[test]
fn damaged_record_fails_the_lookup() {
    let (_, action) = lookup_step(&key(), LookupState::AwaitingFile, LookupEvent::FileRead(vec![1, 2, 3]));
    assert!(matches!(action, LookupAction::Fail(LookupError::Record(RecordError::Decode))));
}

#[test]
fn file_errors_fail_the_lookup() {
    let (_, action) = lookup_step(&key(), LookupState::AwaitingFile, LookupEvent::FileReadFailed);
    assert!(matches!(action, LookupAction::Fail(LookupError::Io)));
    let d = CachedData::new(vec![], 0);
    let (_, action) =
        lookup_step(&key(), LookupState::AwaitingWrite(d), LookupEvent::FileWriteFailed);
    assert!(matches!(action, LookupAction::Fail(LookupError::Io)));
}

#[test]
fn unexpected_events_end_the_lookup() {
    let (state, action) = lookup_step(&key(), LookupState::AwaitingMemory, LookupEvent::DiskIndexHit);
    assert!(matches!(state, LookupState::Done));
    assert!(matches!(action, LookupAction::Fail(LookupError::UnexpectedEvent)));
    let (_, action) = lookup_step(&key(), LookupState::Done, LookupEvent::MemoryMiss);
    assert!(matches!(action, LookupAction::Fail(LookupError::UnexpectedEvent)));
    let (_, action) = lookup_step(&key(), LookupState::AwaitingComputation, LookupEvent::FileWritten);
    assert!(matches!(action, LookupAction::Fail(LookupError::UnexpectedEvent)));
}
