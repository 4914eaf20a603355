use record_marshal::config::TIME_VAL_SIZE;
use record_marshal::marshal::{
    copy_into, copy_record, copy_request, Destination, MarshalError, TranslationRequest,
};
use record_marshal::record::TimeVal;

fn sample_bytes() -> Vec<u8> {
    vec![5, 0, 0, 0, 0, 0, 0, 0, 0x90, 0xD0, 0x03, 0, 0, 0, 0, 0]
}

#[test]
fn single_chunk_copy() {
    let t = TimeVal { sec: 5, usec: 250000 };
    let mut dest = Destination { chunks: vec![vec![0xAA; 16]] };
    assert_eq!(copy_record(Some(&mut dest), &t.to_bytes()), Ok(()));
    assert_eq!(dest.chunks.len(), 1);
    assert_eq!(dest.chunks[0], sample_bytes());
}

#[test]
fn split_copy() {
    let t = TimeVal { sec: 5, usec: 250000 };
    let mut dest = Destination { chunks: vec![vec![0xAA; 10], vec![0xBB; 6]] };
    assert_eq!(copy_record(Some(&mut dest), &t.to_bytes()), Ok(()));
    let expected: Vec<u8> = sample_bytes();
    assert_eq!(dest.chunks[0], expected[..10].to_vec());
    assert_eq!(dest.chunks[1], expected[10..].to_vec());
    assert_eq!(dest.read_back(), expected);
}

#[test]
fn copy_without_destination_is_invalid() {
    let record: Vec<u8> = vec![1, 2, 3];
    assert_eq!(copy_record(None, &record), Err(MarshalError::InvalidDestination));
}

#[test]
fn zero_length_destination_writes_nothing() {
    let record: Vec<u8> = vec![1, 2, 3, 4];
    let mut empty = Destination { chunks: vec![] };
    assert_eq!(copy_record(Some(&mut empty), &record), Ok(()));
    assert!(empty.chunks.is_empty());
    let mut hollow = Destination { chunks: vec![vec![], vec![]] };
    assert_eq!(copy_into(&mut hollow, &record), 0);
    assert_eq!(hollow.chunks, vec![Vec::<u8>::new(), Vec::<u8>::new()]);
    assert_eq!(copy_request(0x8000, Some(0), 16), TranslationRequest { ptr: 0x8000, len: 0 });
}

#[test]
fn request_length_defaults_to_record_length() {
    assert_eq!(copy_request(64, None, TIME_VAL_SIZE), TranslationRequest { ptr: 64, len: 16 });
    assert_eq!(copy_request(64, Some(7), TIME_VAL_SIZE), TranslationRequest { ptr: 64, len: 7 });
    assert_eq!(copy_request(0, Some(4096), TIME_VAL_SIZE), TranslationRequest { ptr: 0, len: 4096 });
}

#[test]
fn short_destination_truncates() {
    let record: Vec<u8> = vec![1, 2, 3, 4, 5, 6, 7, 8];
    let mut dest = Destination { chunks: vec![vec![0; 2], vec![0; 3]] };
    assert_eq!(copy_into(&mut dest, &record), 5);
    assert_eq!(dest.chunks[0], vec![1, 2]);
    assert_eq!(dest.chunks[1], vec![3, 4, 5]);
    assert_eq!(dest.read_back(), vec![1, 2, 3, 4, 5]);
}

#[test]
fn long_destination_keeps_its_tail() {
    let record: Vec<u8> = vec![1, 2, 3, 4, 5];
    let mut dest = Destination { chunks: vec![vec![9; 3], vec![], vec![8; 4], vec![7; 2]] };
    assert_eq!(copy_into(&mut dest, &record), 5);
    assert_eq!(dest.chunks[0], vec![1, 2, 3]);
    assert_eq!(dest.chunks[1], Vec::<u8>::new());
    assert_eq!(dest.chunks[2], vec![4, 5, 8, 8]);
    assert_eq!(dest.chunks[3], vec![7, 7]);
}

#[test]
fn every_split_writes_the_same_bytes() {
    let t = TimeVal { sec: 0x0102030405060708, usec: 999_999 };
    let record: Vec<u8> = t.to_bytes();
    let mut first: usize = 0;
    while first <= 16 {
        let mut dest = Destination { chunks: vec![vec![0xEE; first], vec![0xEE; 16 - first], vec![0xEE; 1]] };
        assert_eq!(copy_into(&mut dest, &record), 16);
        let mut expected: Vec<u8> = record.clone();
        expected.push(0xEE);
        assert_eq!(dest.read_back(), expected);
        assert_eq!(dest.chunks[0].len(), first);
        assert_eq!(dest.chunks[2], vec![0xEE]);
        first += 1;
    }
}

#[test]
fn time_val_round_trip_through_destination() {
    let t = TimeVal { sec: 123_456, usec: 654_321 };
    let mut dest = Destination { chunks: vec![vec![0; 1], vec![0; 7], vec![0; 20]] };
    assert_eq!(copy_record(Some(&mut dest), &t.to_bytes()), Ok(()));
    let back: Vec<u8> = dest.read_back();
    assert_eq!(back.len(), 28);
    assert_eq!(TimeVal::from_bytes(&back[..16]), Some(t));
    assert_eq!(back[16..].to_vec(), vec![0u8; 12]);
}

#[test]
fn empty_record_changes_nothing() {
    let record: Vec<u8> = vec![];
    let mut dest = Destination { chunks: vec![vec![4, 5], vec![6]] };
    assert_eq!(copy_into(&mut dest, &record), 0);
    assert_eq!(dest.read_back(), vec![4, 5, 6]);
}

#[test]
fn every_error_has_a_negative_status_code() {
    assert_eq!(MarshalError::InvalidDestination.status_code(), -1);
    assert_eq!(MarshalError::UnknownSyscall.status_code(), -1);
    assert_eq!(MarshalError::Unsupported.status_code(), -1);
}
