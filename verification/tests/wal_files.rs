use smarthome_ingest::infrastructure::wal::codec::{
    decode_for_recovery, decode_from, decode_into, encode_into, ByteReader, CodecError,
    DecodeOutcome, MAX_WAL_RECORD_PAYLOAD_BYTES,
};
use smarthome_ingest::infrastructure::wal::cursor::{read_cursor, write_cursor};
use smarthome_ingest::infrastructure::wal::recover::last_valid_offset;
use smarthome_ingest::infrastructure::wal::segment::{
    list_segments, parse_segment_id, segment_filename, segment_path,
};
use smarthome_ingest::infrastructure::wal::types::{WalEvent, WalOffset};
use smarthome_ingest::infrastructure::wal::wal::plan_active;

fn sample() -> WalEvent {
    WalEvent {
        topic: String::from("test-topic"),
        ts_ms: 123456789,
        payload: String::from("device_status,device_id=device-123 rssi=-42i 123456789"),
    }
}

fn numbered(i: u64) -> WalEvent {
    WalEvent {
        topic: format!("smarthome/dev-{i}/status"),
        ts_ms: i as i64,
        payload: format!("device_status,device_id=dev-{i} rssi=-50i"),
    }
}

/// A segment with `n` records in it.
fn write_records(n: u64) -> Vec<u8> {
    let mut file = Vec::new();
    let mut buf = Vec::new();
    for i in 0..n {
        encode_into(&mut buf, &numbered(i)).unwrap();
        file.extend_from_slice(&buf);
    }
    file
}

fn valid_len(file: &[u8]) -> u64 {
    last_valid_offset(&mut ByteReader::new(file.to_vec())).unwrap()
}

#[test]
fn test_encode() {
    let mut buf = Vec::new();
    encode_into(&mut buf, &sample()).unwrap();
    assert!(!buf.is_empty());
}

#[test]
fn test_decode() {
    let event = sample();
    let mut buf = Vec::new();
    encode_into(&mut buf, &event).unwrap();

    let mut reader = ByteReader::new(buf);
    let (decoded_event, consumed) = decode_from(&mut reader).unwrap().unwrap();
    assert_eq!(event.ts_ms, decoded_event.ts_ms);
    assert_eq!(event.topic, decoded_event.topic);
    assert_eq!(event.payload, decoded_event.payload);
    assert_eq!(consumed, reader.position());
}

#[test]
fn test_encode_decode() {
    let event = sample();
    let mut buf = Vec::new();
    encode_into(&mut buf, &event).unwrap();
    let encoded_len = buf.len();

    let mut reader = ByteReader::new(buf);
    let (decoded_event, consumed) = decode_from(&mut reader).unwrap().unwrap();
    assert_eq!(event.ts_ms, decoded_event.ts_ms);
    assert_eq!(event.topic, decoded_event.topic);
    assert_eq!(event.payload, decoded_event.payload);
    assert_eq!(consumed, encoded_len);
}

#[test]
fn record_layout_is_length_then_fields() {
    let event = WalEvent { topic: "ab".to_string(), ts_ms: -2, payload: "c".to_string() };
    let mut buf = vec![9, 9, 9];
    encode_into(&mut buf, &event).unwrap();
    let mut expected: Vec<u8> = vec![27, 0, 0, 0];
    expected.extend_from_slice(&2u64.to_le_bytes());
    expected.extend_from_slice(b"ab");
    expected.extend_from_slice(&(-2i64).to_le_bytes());
    expected.extend_from_slice(&1u64.to_le_bytes());
    expected.extend_from_slice(b"c");
    assert_eq!(buf, expected);
}

#[test]
fn test_empty_reader() {
    let mut reader = ByteReader::new(Vec::new());
    let result = decode_from(&mut reader).unwrap();
    assert!(result.is_none());
}

#[test]
fn decode_into_reuses_buffer_across_records() {
    let event_a = WalEvent {
        topic: String::from("topic-a"),
        ts_ms: 1,
        payload: String::from("device_status,device_id=device-a rssi=-42i 1"),
    };
    let event_b = WalEvent {
        topic: String::from("topic-b-longer-than-a"),
        ts_ms: 2,
        payload: String::from("device_status,device_id=device-b-longer-than-a rssi=-42i 2"),
    };

    let mut wire = Vec::new();
    let mut enc = Vec::new();
    encode_into(&mut enc, &event_a).unwrap();
    wire.extend_from_slice(&enc);
    encode_into(&mut enc, &event_b).unwrap();
    wire.extend_from_slice(&enc);

    let mut reader = ByteReader::new(wire);
    let mut payload = Vec::new();

    let (a, _) = decode_into(&mut reader, &mut payload).unwrap().unwrap();
    assert_eq!(a.topic, event_a.topic);
    let cap_after_first = payload.capacity();

    let (b, _) = decode_into(&mut reader, &mut payload).unwrap().unwrap();
    assert_eq!(b.topic, event_b.topic);

    assert!(cap_after_first > 0);
    assert!(payload.capacity() >= cap_after_first);

    assert!(decode_into(&mut reader, &mut payload).unwrap().is_none());
}

#[test]
fn test_truncated_event() {
    let mut buf = Vec::new();
    encode_into(&mut buf, &sample()).unwrap();

    let truncated_len = buf.len() - 5;
    let mut reader = ByteReader::new(buf[..truncated_len].to_vec());

    let result = decode_from(&mut reader).unwrap();
    assert!(result.is_none());
}

#[test]
fn decode_into_oversized_length_prefix_returns_error_without_growing_payload_buffer() {
    let mut wire = Vec::new();
    wire.extend_from_slice(&2_000_000u32.to_le_bytes());

    let mut reader = ByteReader::new(wire);
    let mut payload = Vec::with_capacity(16);
    let cap_before = payload.capacity();

    let err = decode_into(&mut reader, &mut payload).expect_err("oversized frame must be rejected");
    assert!(err.message().contains("WAL record length"), "{}", err.message());
    assert_eq!(err.message(), "WAL record length 2000000 exceeds max 1048576 bytes");
    assert_eq!(payload.capacity(), cap_before);
}

#[test]
fn decode_for_recovery_oversized_length_prefix_keeps_small_payload_buffer() {
    let mut wire = Vec::new();
    wire.extend_from_slice(&2_000_000u32.to_le_bytes());

    let mut reader = ByteReader::new(wire);
    let mut payload = Vec::with_capacity(16);
    let cap_before = payload.capacity();

    let outcome = decode_for_recovery(&mut reader, &mut payload).unwrap();
    assert!(matches!(outcome, DecodeOutcome::CleanEof));
    assert_eq!(payload.capacity(), cap_before);
}

#[test]
fn a_record_over_the_limit_is_written_but_not_read_back() {
    let event = WalEvent {
        topic: String::new(),
        ts_ms: 0,
        payload: "x".repeat(MAX_WAL_RECORD_PAYLOAD_BYTES),
    };
    let mut buf = Vec::new();
    encode_into(&mut buf, &event).unwrap();
    match decode_from(&mut ByteReader::new(buf)) {
        Err(CodecError::LengthLimit(len)) => {
            assert_eq!(len as usize, MAX_WAL_RECORD_PAYLOAD_BYTES + 24)
        }
        _ => panic!("the record is over the limit"),
    }
}

#[test]
fn a_record_that_is_no_event_is_corrupt() {
    let mut wire = 8u32.to_le_bytes().to_vec();
    wire.extend_from_slice(&u64::MAX.to_le_bytes());
    let mut payload = Vec::new();
    assert!(matches!(
        decode_into(&mut ByteReader::new(wire.clone()), &mut payload),
        Err(CodecError::Payload(_))
    ));
    assert!(matches!(
        decode_for_recovery(&mut ByteReader::new(wire), &mut payload),
        Ok(DecodeOutcome::FrameCorrupt(12))
    ));
}

#[test]
fn a_reader_that_breaks_is_an_error() {
    let mut payload = Vec::new();
    let mut buf = Vec::new();
    encode_into(&mut buf, &sample()).unwrap();
    buf.truncate(buf.len() - 1);
    let mut reader = ByteReader::new_broken(buf, "disk gone".to_string());
    match decode_into(&mut reader, &mut payload) {
        Err(e @ CodecError::Read(_)) => assert_eq!(e.message(), "disk gone"),
        _ => panic!("a failed read is expected"),
    }
}

#[test]
fn what_was_written_is_read_back_in_order() {
    let mut reader = ByteReader::new(write_records(5));
    for i in 0..5 {
        let (event, _) = decode_from(&mut reader).unwrap().unwrap();
        assert_eq!(event.topic, numbered(i).topic);
        assert_eq!(event.ts_ms, numbered(i).ts_ms);
        assert_eq!(event.payload, numbered(i).payload);
    }
    assert!(decode_from(&mut reader).unwrap().is_none());
}

#[test]
fn test_read_cursor_file_states_returns_expected_offsets() {
    assert!(read_cursor(None).unwrap().is_none());
    assert!(read_cursor(Some(&Vec::new())).unwrap().is_none());

    let offset = WalOffset { segment_id: 42, byte_offset: 100 };
    assert_eq!(read_cursor(Some(&offset.to_bytes().to_vec())).unwrap(), Some(offset));
}

#[test]
fn test_write_cursor_valid_offset_round_trips() {
    let offset = WalOffset { segment_id: 42, byte_offset: 100 };
    let file = write_cursor(offset);
    assert_eq!(read_cursor(Some(&file)).unwrap(), Some(offset));
}

#[test]
fn test_write_cursor_then_read_cursor_returns_written_offset() {
    let offset = WalOffset { segment_id: 42, byte_offset: 100 };
    let file = write_cursor(offset);
    let read_offset = read_cursor(Some(&file)).unwrap();
    assert_eq!(read_offset, Some(offset));
}

#[test]
fn cursor_bytes_are_big_endian() {
    let offset = WalOffset { segment_id: 1, byte_offset: 0x0203 };
    assert_eq!(write_cursor(offset), vec![0, 0, 0, 0, 0, 0, 0, 1, 0, 0, 0, 0, 0, 0, 2, 3]);
    assert_eq!(WalOffset::from_bytes(offset.to_bytes()), offset);
}

#[test]
fn a_cursor_of_another_length_is_an_error() {
    let err = read_cursor(Some(&vec![1, 2, 3])).unwrap_err();
    assert!(err.message().contains("3"), "{}", err.message());
}

#[test]
fn last_valid_offset_missing_file_returns_zero() {
    assert_eq!(valid_len(&[]), 0);
}

#[test]
fn last_valid_offset_empty_file_returns_zero() {
    assert_eq!(valid_len(&Vec::new()), 0);
}

#[test]
fn last_valid_offset_clean_file_returns_full_length() {
    let file = write_records(5);
    assert_eq!(valid_len(&file), file.len() as u64);
}

#[test]
fn last_valid_offset_torn_length_prefix_returns_offset_before_prefix() {
    let mut file = write_records(3);
    let total = file.len() as u64;
    file.extend_from_slice(&[0u8, 0u8]);
    assert_eq!(valid_len(&file), total);
}

#[test]
fn last_valid_offset_full_prefix_partial_payload_returns_offset_before_prefix() {
    let mut file = write_records(3);
    let total = file.len() as u64;
    file.extend_from_slice(&999u32.to_le_bytes());
    assert_eq!(valid_len(&file), total);
}

#[test]
fn a_scan_that_needs_bytes_behind_a_failed_read_is_an_error() {
    let records = write_records(3);
    let total = records.len() as u64;
    let scan = |tail: &[u8]| {
        let mut file = records.clone();
        file.extend_from_slice(tail);
        last_valid_offset(&mut ByteReader::new_broken(file, "disk gone".to_string()))
    };
    assert!(matches!(scan(&[]), Err(CodecError::Read(cause)) if cause == "disk gone"));
    assert!(matches!(scan(&[0, 0]), Err(CodecError::Read(cause)) if cause == "disk gone"));
    assert!(matches!(scan(&999u32.to_le_bytes()), Err(CodecError::Read(cause)) if cause == "disk gone"));
    assert!(matches!(scan(&u32::MAX.to_le_bytes()), Err(CodecError::Read(cause)) if cause == "disk gone"));

    // The scan ends at a complete record that is no event: it needs no more.
    let mut corrupt = 8u32.to_le_bytes().to_vec();
    corrupt.extend_from_slice(&[0xFF; 8]);
    assert_eq!(scan(&corrupt).unwrap(), total);

    let broken = |segments: Vec<u64>| {
        plan_active(&segments, total, &mut ByteReader::new_broken(records.clone(), "disk gone".to_string()))
    };
    assert!(matches!(broken(vec![1, 2]), Err(CodecError::Read(cause)) if cause == "disk gone"));
    assert_eq!(broken(vec![]).unwrap().tail, WalOffset { segment_id: 1, byte_offset: 0 });
}

#[test]
fn truncate_to_shrinks_file() {
    let mut file = write_records(3);
    let total = file.len() as u64;
    file.extend_from_slice(&999u32.to_le_bytes());
    assert!(file.len() as u64 > total);
    let file_len = file.len() as u64;
    let plan = plan_active(&vec![7], file_len, &mut ByteReader::new(file.clone())).unwrap();
    assert!(plan.truncate);
    assert_eq!(plan.tail, WalOffset { segment_id: 7, byte_offset: total });
    file.truncate(plan.tail.byte_offset as usize);
    assert_eq!(file.len() as u64, total);
    assert_eq!(valid_len(&file), total);
}

#[test]
fn test_segment_filename() {
    let id = 42;
    let expected = "00000000000000000042.log";
    assert_eq!(segment_filename(id), expected);
}

#[test]
fn test_parse_segment_id() {
    let name = "00000000000000000042.log";
    let expected: Option<u64> = Some(42);
    assert_eq!(parse_segment_id(name), expected);
}

#[test]
fn test_parse_segment_id_invalid_suffix() {
    let name = "00000000000000000042.txt";
    let expected: Option<u64> = None;
    assert_eq!(parse_segment_id(name), expected);
}

#[test]
fn test_parse_segment_id_invalid_length() {
    let name = "42.log";
    let expected: Option<u64> = None;
    assert_eq!(parse_segment_id(name), expected);
}

#[test]
fn test_parse_segment_id_invalid() {
    let name = "invalid_name.log";
    let expected: Option<u64> = None;
    assert_eq!(parse_segment_id(name), expected);
}

#[test]
fn test_list_segments() {
    let names = vec![
        segment_filename(2),
        segment_filename(1),
        "not_a_segment.log".to_string(),
    ];
    let segments = list_segments(&names);
    assert_eq!(segments, vec![1, 2]);
}

#[test]
fn test_segment_path() {
    let id = 42;
    assert_eq!(segment_path("/tmp/wal", id), "/tmp/wal/00000000000000000042.log");
}

#[test]
fn segment_names_round_trip_and_stand_in_order() {
    for id in [0, 1, 9, 10, 12345678901234567890, u64::MAX] {
        assert_eq!(parse_segment_id(&segment_filename(id)), Some(id));
    }
    assert!(segment_filename(9) < segment_filename(10));
    assert_eq!(parse_segment_id("18446744073709551616.log"), None);
}

#[test]
fn what_follows_a_record_does_not_change_it() {
    let mut buf = Vec::new();
    encode_into(&mut buf, &sample()).unwrap();
    let width = buf.len();
    buf.extend_from_slice(&[0xFF; 40]);
    let (event, consumed) = decode_from(&mut ByteReader::new(buf.clone())).unwrap().unwrap();
    assert_eq!(event.payload, sample().payload);
    assert_eq!(consumed, width);
    assert_eq!(valid_len(&buf), width as u64);
}

#[test]
fn a_record_cut_anywhere_is_torn() {
    let mut buf = Vec::new();
    encode_into(&mut buf, &sample()).unwrap();
    for kept in 0..buf.len() {
        let cut = buf[..kept].to_vec();
        assert!(decode_from(&mut ByteReader::new(cut.clone())).unwrap().is_none());
        assert_eq!(valid_len(&cut), 0);
    }
}
