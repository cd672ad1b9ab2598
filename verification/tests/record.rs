use nahlun_server::cache::record::{CachedData, RecordError};

#[test]
fn record_layout_is_length_bytes_stamp() {
    let d = CachedData::new(vec![0xaa, 0xbb, 0xcc], 0x0102030405060708);
    let r = d.to_record();
    assert_eq!(
        r,
        vec![
            3, 0, 0, 0, 0, 0, 0, 0, 0xaa, 0xbb, 0xcc, 8, 7, 6, 5, 4, 3, 2, 1
        ]
    );
}

#[test]
fn record_reads_back() {
    let d = CachedData::new((0u8..=255).collect(), 1_700_000_000);
    let r = d.to_record();
    let back = CachedData::from_record(&r).unwrap();
    assert_eq!(back.bytes, d.bytes);
    assert_eq!(back.registered_at, d.registered_at);
}

#[test]
fn empty_record_reads_back() {
    let d = CachedData::new(vec![], 0);
    let r = d.to_record();
    assert_eq!(r.len(), 16);
    let back = CachedData::from_record(&r).unwrap();
    assert!(back.bytes.is_empty());
    assert_eq!(back.registered_at, 0);
}

#[test]
fn record_ignores_trailing_bytes() {
    let d = CachedData::new(vec![1, 2], 9);
    let mut r = d.to_record();
    r.extend_from_slice(&[0xff, 0xfe]);
    let back = CachedData::from_record(&r).unwrap();
    assert_eq!(back.bytes, vec![1, 2]);
    assert_eq!(back.registered_at, 9);
}

#[test]
fn truncated_record_is_refused() {
    let d = CachedData::new(vec![1, 2, 3], 9);
    let r = d.to_record();
    for cut in 0..r.len() {
        assert_eq!(CachedData::from_record(&r[..cut]).unwrap_err(), RecordError::Decode);
    }
}

#[test]
fn record_with_oversized_length_is_refused() {
    let mut r = vec![0xff; 8];
    r.extend_from_slice(&[0; 16]);
    assert_eq!(CachedData::from_record(&r).unwrap_err(), RecordError::Decode);
}
