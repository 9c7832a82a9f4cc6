use std::collections::BTreeMap;

use smarthome_ingest::infrastructure::sink::SinkError;
use smarthome_ingest::infrastructure::wal::codec::{decode_from, encode_into, ByteReader};
use smarthome_ingest::infrastructure::wal::cursor::{read_cursor, write_cursor};
use smarthome_ingest::infrastructure::wal::forwarder::{AfterCommit, AfterWrite, Forwarder};
use smarthome_ingest::infrastructure::wal::subscription::{
    read_len_prefix, read_one, NextStep, ReadOutcome, WaitStep, WalSubscription,
};
use smarthome_ingest::infrastructure::wal::types::{
    AppendDurableError, TryAppendError, WalEntry, WalEvent, WalOffset,
};
use smarthome_ingest::infrastructure::wal::wal::{
    append_durable_answered, append_durable_refused, plan_active, plan_read_start,
    try_append_refused, QueueRefusal,
};
use smarthome_ingest::infrastructure::wal::writer::{
    snapshot, AtomicWalOffset, WriteRequest, Writer, WriterFatalReason, WriterWait,
    FLUSH_INTERVAL_US, WAL_SEGMENT_ROTATIONS_METRIC,
};

fn sample_event(seq: u64) -> WalEvent {
    WalEvent {
        topic: format!("smarthome/dev-{seq}/status"),
        ts_ms: 1_700_000_000_000 + seq as i64,
        payload: format!(
            "device_status,device_id=dev-{seq},device_class=test rssi=-50i {}",
            1_700_000_000_000 + seq as i64
        ),
    }
}

fn frame_len(event: &WalEvent) -> u64 {
    let mut buf = Vec::new();
    encode_into(&mut buf, event).unwrap();
    buf.len() as u64
}

fn at(segment_id: u64, byte_offset: u64) -> WalOffset {
    WalOffset { segment_id, byte_offset }
}

/// The files of a log.
#[derive(Clone)]
struct Disk {
    segments: BTreeMap<u64, Vec<u8>>,
    cursor: Option<Vec<u8>>,
}

impl Disk {
    fn empty() -> Disk {
        Disk { segments: BTreeMap::new(), cursor: None }
    }

    fn ids(&self) -> Vec<u64> {
        self.segments.keys().copied().collect()
    }
}

/// A log with its writer and its reader, on files in memory.
struct Log {
    disk: Disk,
    writer: Option<Writer<u32>>,
    buffer: Vec<u8>,
    head: WalOffset,
    acked: Vec<u32>,
    now: u64,
    sub: WalSubscription,
}

impl Log {
    fn open(disk: Disk, segment_bytes: u64) -> Result<Log, String> {
        let mut disk = disk;
        let ids = disk.ids();
        let last = match ids.last() {
            Some(id) => disk.segments[id].clone(),
            None => Vec::new(),
        };
        let plan = plan_active(&ids, last.len() as u64, &mut ByteReader::new(last)).unwrap();
        let file = disk.segments.entry(plan.tail.segment_id).or_default();
        if plan.truncate {
            file.truncate(plan.tail.byte_offset as usize);
        }
        let cursor = read_cursor(disk.cursor.as_ref()).map_err(|e| e.message())?;
        let start = plan_read_start(&ids, plan.tail.segment_id, cursor).map_err(|e| e.message)?;
        Ok(Log {
            disk,
            writer: Some(Writer::new(plan.tail, segment_bytes, 0)),
            buffer: Vec::new(),
            head: plan.tail,
            acked: Vec::new(),
            now: 0,
            sub: WalSubscription::new(start),
        })
    }

    /// Writes the buffer to the file of a segment.
    fn flush(&mut self, segment: u64) {
        let file = self.disk.segments.entry(segment).or_default();
        file.append(&mut self.buffer);
    }

    fn append(&mut self, event: WalEvent, ack: Option<u32>) {
        let mut writer = self.writer.take().unwrap();
        let mut record = match writer.received(WriteRequest { event, durable_ack: ack }) {
            Ok(record) => record,
            Err(rejected) => panic!("{}", rejected.message),
        };
        if writer.needs_rotation(&record) {
            self.flush(writer.segment_id());
            record = match writer.rotation_flushed(Ok(()), record) {
                Ok((published, record)) => {
                    self.head = published.head;
                    self.acked.extend(published.acked.into_iter().map(|p| p.ack));
                    record
                }
                Err(fatal) => panic!("{}", fatal.message),
            };
            self.disk.segments.insert(writer.segment_id(), Vec::new());
            record = match writer.segment_opened(Ok(()), record) {
                Ok(record) => record,
                Err(fatal) => panic!("{}", fatal.message),
            };
        }
        self.buffer.extend_from_slice(&record.frame);
        if let Err(fatal) = writer.record_written(Ok(()), record, self.now) {
            panic!("{}", fatal.message);
        }
        self.writer = Some(writer);
    }

    /// Lets the flush interval pass. Whether something was published.
    fn tick(&mut self) -> bool {
        self.now += FLUSH_INTERVAL_US;
        let mut writer = self.writer.take().unwrap();
        let due = writer.poll(self.now) == WriterWait::Flush;
        if due {
            self.flush(writer.segment_id());
            let published = writer.periodic_flushed(true, self.now).unwrap();
            self.head = published.head;
            self.acked.extend(published.acked.into_iter().map(|p| p.ack));
        }
        self.writer = Some(writer);
        due
    }

    fn close(&mut self) {
        let writer = self.writer.take().unwrap();
        self.flush(writer.segment_id());
        match writer.shut_down(Ok(())) {
            Ok(published) => {
                self.head = published.head;
                self.acked.extend(published.acked.into_iter().map(|p| p.ack));
            }
            Err(failure) => panic!("{}", failure.message),
        }
    }

    /// The next entry; `None` where the reader would wait or is at the end.
    fn next(&mut self) -> Option<WalEntry> {
        let mut payload = Vec::new();
        loop {
            let place = self.sub.position();
            let outcome = match self.disk.segments.get(&place.segment_id) {
                None => ReadOutcome::NotFound,
                Some(file) => match file.get(place.byte_offset as usize..) {
                    None => ReadOutcome::Eof,
                    Some(rest) => read_one(&mut ByteReader::new(rest.to_vec()), &mut payload),
                },
            };
            match self.sub.on_read(outcome, self.head) {
                NextStep::Deliver(entry) => return Some(entry),
                NextStep::Skip => {
                    let rest = self.disk.segments[&place.segment_id]
                        [place.byte_offset as usize..]
                        .to_vec();
                    if self.sub.skip_corrupt_record(read_len_prefix(&rest)) {
                        continue;
                    }
                }
                NextStep::WaitOrAdvance => {}
            }
            let last_head = if self.writer.is_none() { Some(self.head) } else { None };
            match self.sub.wait_or_advance(self.head, last_head) {
                WaitStep::Retry => {}
                WaitStep::Wait | WaitStep::Finished => return None,
            }
        }
    }

    fn commit(&mut self, up_to: WalOffset) {
        self.commit_but(up_to, &[]);
    }

    /// Commits a place, where the files of these segments cannot be deleted.
    fn commit_but(&mut self, up_to: WalOffset, stuck: &[u64]) {
        self.disk.cursor = Some(write_cursor(up_to));
        let mut reclaimed = true;
        for id in self.sub.segments_to_delete(up_to, &self.disk.ids()) {
            if stuck.contains(&id) {
                reclaimed = false;
            } else {
                self.disk.segments.remove(&id);
            }
        }
        self.sub.committed(up_to, reclaimed);
    }
}

fn open(disk: Disk, segment_bytes: u64) -> Log {
    match Log::open(disk, segment_bytes) {
        Ok(log) => log,
        Err(message) => panic!("{message}"),
    }
}

#[test]
fn test_writer_fatal_reason_labels_are_stable() {
    assert_eq!(WriterFatalReason::FlushBeforeRotation.as_str(), "flush_before_rotation");
    assert_eq!(WriterFatalReason::OpenNextSegment.as_str(), "open_next_segment");
    assert_eq!(WriterFatalReason::WriteAll.as_str(), "write_all");
}

#[test]
fn test_writer_rotation_metric_name_is_stable() {
    assert_eq!(WAL_SEGMENT_ROTATIONS_METRIC, "wal_segment_rotations_total");
}

#[test]
fn test_try_append_then_next_round_trips_single_event() {
    let mut log = open(Disk::empty(), 1024 * 1024);
    let ev = sample_event(1);
    log.append(ev.clone(), None);
    assert!(log.tick());

    let got = log.next().expect("event should arrive");
    assert_eq!(got.event.topic, ev.topic);
    assert_eq!(got.event.ts_ms, ev.ts_ms);
    assert_eq!(got.offset.segment_id, 1);
    assert_eq!(got.offset.byte_offset, 0);
    assert!(got.offset_after.byte_offset > 0);
}

#[test]
fn test_append_durable_writer_flush_visibility_returns_after_readable() {
    let mut log = open(Disk::empty(), 1024 * 1024);
    let ev = sample_event(1);
    log.append(ev.clone(), Some(7));
    assert!(log.acked.is_empty(), "nobody is told before the flush");
    log.tick();
    assert_eq!(log.acked, vec![7]);

    let bytes = log.disk.segments[&1].clone();
    let (decoded, _) = decode_from(&mut ByteReader::new(bytes)).unwrap().unwrap();
    assert_eq!(decoded.ts_ms, ev.ts_ms);
    assert_eq!(decoded.topic, ev.topic);
}

#[test]
fn test_open_reopen_without_commit_replays_all_records_with_monotonic_offsets() {
    let mut log = open(Disk::empty(), 1024 * 1024);
    for i in 0..100 {
        log.append(sample_event(i), None);
    }
    log.close();

    let mut log = open(log.disk.clone(), 1024 * 1024);
    let mut prev: Option<WalOffset> = None;
    for i in 0..100 {
        let entry = log.next().expect("missing record");
        assert_eq!(entry.event.ts_ms, sample_event(i).ts_ms);
        if let Some(p) = prev {
            assert!(entry.offset > p, "offsets must be monotonic");
        }
        prev = Some(entry.offset);
    }
}

#[test]
fn test_commit_halfway_reopen_resumes_subscription_at_committed_offset() {
    let mut log = open(Disk::empty(), 1024 * 1024);
    for i in 0..10 {
        log.append(sample_event(i), None);
    }
    log.tick();
    let mut cutoff = at(0, 0);
    for _ in 0..5 {
        cutoff = log.next().unwrap().offset_after;
    }
    log.commit(cutoff);
    log.close();

    let mut log = open(log.disk.clone(), 1024 * 1024);
    for i in 5..10 {
        let entry = log.next().expect("missing post-commit record");
        assert_eq!(entry.event.ts_ms, sample_event(i).ts_ms);
        assert!(entry.offset >= cutoff);
    }
}

#[test]
fn test_try_append_segment_rotation_produces_multiple_files_on_disk() {
    let mut log = open(Disk::empty(), 512);
    for i in 0..50 {
        log.append(sample_event(i), None);
    }
    log.close();
    assert!(log.disk.ids().len() >= 2, "expected rotation");
}

#[test]
fn test_commit_past_segment_boundary_deletes_older_segments() {
    let mut log = open(Disk::empty(), 512);
    for i in 0..50 {
        log.append(sample_event(i), None);
    }
    log.tick();

    let mut commit_at = None;
    for _ in 0..50 {
        let entry = log.next().unwrap();
        if entry.offset.segment_id >= 2 {
            commit_at = Some(entry.offset);
            break;
        }
    }
    let cutoff = commit_at.expect("never crossed into segment 2");
    log.commit(cutoff);
    assert!(log.disk.ids().iter().all(|&id| id >= cutoff.segment_id));
    assert!(log.disk.ids().contains(&cutoff.segment_id));
}

#[test]
fn test_open_torn_trailing_record_stops_replay_cleanly() {
    let mut log = open(Disk::empty(), 1024 * 1024);
    log.append(sample_event(1), None);
    log.close();
    let mut disk = log.disk.clone();
    disk.segments.get_mut(&1).unwrap().extend_from_slice(&999u32.to_le_bytes());

    let mut log = open(disk, 1024 * 1024);
    let good = log.next().expect("good record");
    assert_eq!(good.event.ts_ms, sample_event(1).ts_ms);
    assert!(log.next().is_none(), "replay should stop at torn tail");
}

#[test]
fn test_open_torn_tail_heals_and_subsequent_append_replays_cleanly() {
    let mut log = open(Disk::empty(), 1024 * 1024);
    log.append(sample_event(1), None);
    log.close();
    let mut disk = log.disk.clone();
    disk.segments.get_mut(&1).unwrap().extend_from_slice(&999u32.to_le_bytes());

    let mut log = open(disk, 1024 * 1024);
    log.append(sample_event(2), None);
    log.close();

    let mut log = open(log.disk.clone(), 1024 * 1024);
    let first = log.next().expect("first good record");
    assert_eq!(first.event.ts_ms, sample_event(1).ts_ms);
    let second = log.next().expect("second good record");
    assert_eq!(second.event.ts_ms, sample_event(2).ts_ms);
    assert!(second.offset > first.offset);
    assert!(log.next().is_none(), "replay should block after the last record");
}

#[test]
fn test_next_live_subscription_after_writer_shutdown_drains_all_records() {
    let mut log = open(Disk::empty(), 1024 * 1024);
    for i in 0..20 {
        log.append(sample_event(i), None);
    }
    log.close();

    let mut count = 0u64;
    while let Some(entry) = log.next() {
        assert_eq!(entry.event.ts_ms, sample_event(count).ts_ms);
        count += 1;
    }
    assert_eq!(count, 20, "graceful drain must yield every appended record");
}

#[test]
fn test_open_corrupt_cursor_file_returns_error() {
    let mut disk = Disk::empty();
    disk.cursor = Some(vec![1u8, 2u8, 3u8]);
    match Log::open(disk, 1024 * 1024) {
        Ok(_) => panic!("corrupt cursor must fail startup"),
        Err(message) => assert!(
            message.contains("Invalid cursor file length: expected 16 bytes, got 3"),
            "{message}"
        ),
    }
}

#[test]
fn a_cursor_outside_the_log_fails_startup() {
    let message = plan_read_start(&vec![3, 4], 4, Some(at(2, 9))).unwrap_err().message;
    assert_eq!(
        message,
        "WAL cursor points outside available segments: \
         cursor=WalOffset { segment_id: 2, byte_offset: 9 }, segments=[3, 4]"
    );
    assert_eq!(plan_read_start(&vec![3, 4], 4, Some(at(4, 9))).unwrap(), at(4, 9));
    assert_eq!(plan_read_start(&vec![3, 4], 4, None).unwrap(), at(3, 0));
    assert_eq!(plan_read_start(&Vec::new(), 1, None).unwrap(), at(1, 0));
}

#[test]
fn test_try_append_queue_saturated_returns_full() {
    match try_append_refused(QueueRefusal::Full, sample_event(1)) {
        TryAppendError::Full(event) => assert_eq!(event.ts_ms, sample_event(1).ts_ms),
        TryAppendError::Closed(_) => panic!("expected Full, got Closed"),
    }
    assert!(matches!(
        try_append_refused(QueueRefusal::Disconnected, sample_event(1)),
        TryAppendError::Closed(_)
    ));
}

#[test]
fn a_durable_append_reports_what_the_writer_said() {
    assert!(append_durable_answered(Some(Ok(()))).is_ok());
    match append_durable_answered(Some(Err("disk full".to_string()))) {
        Err(AppendDurableError::Durability(reason)) => assert_eq!(reason, "disk full"),
        _ => panic!("the failure must be reported"),
    }
    match append_durable_answered(None) {
        Err(AppendDurableError::Durability(reason)) => {
            assert_eq!(reason, "wal writer exited before durability ack")
        }
        _ => panic!("the silence must be reported"),
    }
    assert!(matches!(
        append_durable_refused(QueueRefusal::Full, sample_event(1)),
        AppendDurableError::Full(_)
    ));
    assert!(matches!(
        append_durable_refused(QueueRefusal::Disconnected, sample_event(1)),
        AppendDurableError::Closed(_)
    ));
}

#[test]
fn test_spawn_writer_sender_drop_persists_single_event() {
    let mut log = open(Disk::empty(), 1024 * 1024);
    let event = sample_event(1);
    log.append(event.clone(), None);
    log.close();

    let bytes = log.disk.segments[&1].clone();
    assert!(!bytes.is_empty(), "segment file should contain the record");
    let mut reader = ByteReader::new(bytes);
    let (decoded, _) = decode_from(&mut reader).unwrap().expect("one event present");
    assert_eq!(decoded.topic, event.topic);
    assert_eq!(decoded.ts_ms, event.ts_ms);
    assert!(decode_from(&mut reader).unwrap().is_none(), "only one record expected");
}

#[test]
fn test_spawn_writer_each_record_updates_head() {
    let mut log = open(Disk::empty(), 1024 * 1024);
    let len1 = frame_len(&sample_event(1));
    let len2 = frame_len(&sample_event(2));

    log.append(sample_event(1), None);
    log.tick();
    assert_eq!(log.head, at(1, len1));

    log.append(sample_event(2), None);
    log.tick();
    assert_eq!(log.head, at(1, len1 + len2));
}

#[test]
fn test_spawn_writer_segment_threshold_exceeded_rotates_segment() {
    let mut log = open(Disk::empty(), 64);
    log.append(sample_event(1), None);
    log.append(sample_event(2), None);
    log.tick();
    assert!(log.head.segment_id >= 2, "writer should have rotated to a new segment");
    log.close();

    let segments = log.disk.ids();
    assert!(segments.len() >= 2);
    assert_eq!(segments[0], 1);
    assert_eq!(segments[1], 2);
}

#[test]
fn test_spawn_writer_existing_segment_with_start_offset_appends_without_overwrite() {
    let mut first = open(Disk::empty(), 1024 * 1024);
    first.append(sample_event(1), None);
    first.tick();
    let first_len = frame_len(&sample_event(1));
    assert_eq!(first.head, at(1, first_len));
    first.close();

    let mut second = open(first.disk.clone(), 1024 * 1024);
    second.append(sample_event(2), None);
    second.tick();
    assert_eq!(second.head, at(1, first_len + frame_len(&sample_event(2))));
    second.close();

    let mut reader = ByteReader::new(second.disk.segments[&1].clone());
    let (a, _) = decode_from(&mut reader).unwrap().expect("first record");
    let (b, _) = decode_from(&mut reader).unwrap().expect("second record");
    assert_eq!(a.ts_ms, sample_event(1).ts_ms);
    assert_eq!(b.ts_ms, sample_event(2).ts_ms);
}

#[test]
fn test_spawn_writer_idle_does_not_notify_without_new_records() {
    let mut log = open(Disk::empty(), 1024 * 1024);
    log.append(sample_event(1), None);
    assert!(log.tick());
    for _ in 0..12 {
        assert!(!log.tick(), "idle writer must not notify when no new records were written");
    }
    log.append(sample_event(2), None);
    assert!(log.tick(), "a new record must still flush and notify the waiter");
}

#[test]
fn a_writer_waits_no_longer_than_the_flush_is_due() {
    let mut log = open(Disk::empty(), 1024 * 1024);
    let writer = log.writer.as_ref().unwrap();
    assert_eq!(writer.poll(123), WriterWait::Receive(None));
    log.append(sample_event(1), None);
    let writer = log.writer.as_ref().unwrap();
    assert_eq!(writer.poll(1000), WriterWait::Receive(Some(4000)));
    assert_eq!(writer.poll(5000), WriterWait::Flush);
}

#[test]
fn a_flush_that_failed_is_tried_again_later() {
    let mut log = open(Disk::empty(), 1024 * 1024);
    log.append(sample_event(1), Some(1));
    let mut writer = log.writer.take().unwrap();
    assert!(writer.periodic_flushed(false, 6000).is_none());
    assert_eq!(writer.poll(6000), WriterWait::Receive(Some(FLUSH_INTERVAL_US)));
    let published = writer.periodic_flushed(true, 11000).unwrap();
    assert_eq!(published.head, at(1, frame_len(&sample_event(1))));
    assert_eq!(published.acked.len(), 1);
    assert_eq!(published.acked[0].end, published.head);
}

#[test]
fn everyone_who_waits_is_told_when_the_writer_ends() {
    for reason in [
        WriterFatalReason::FlushBeforeRotation,
        WriterFatalReason::OpenNextSegment,
        WriterFatalReason::WriteAll,
    ] {
        let mut log = open(Disk::empty(), 1024 * 1024);
        log.append(sample_event(1), Some(1));
        log.append(sample_event(2), Some(2));
        let mut writer = log.writer.take().unwrap();
        let request = WriteRequest { event: sample_event(3), durable_ack: Some(3) };
        let record = match writer.received(request) {
            Ok(record) => record,
            Err(rejected) => panic!("{}", rejected.message),
        };
        let cause = "disk gone".to_string();
        let fatal = match reason {
            WriterFatalReason::FlushBeforeRotation => {
                writer.rotation_flushed(Err(cause), record).err().unwrap()
            }
            WriterFatalReason::OpenNextSegment => {
                writer.segment_opened(Err(cause), record).err().unwrap()
            }
            WriterFatalReason::WriteAll => {
                writer.record_written(Err(cause), record, 0).err().unwrap()
            }
        };
        assert_eq!(fatal.reason, reason);
        assert_eq!(fatal.failed, vec![3, 1, 2]);
        assert!(fatal.message.ends_with("disk gone"), "{}", fatal.message);
    }
    let mut log = open(Disk::empty(), 1024 * 1024);
    log.append(sample_event(1), Some(1));
    let failure = log.writer.take().unwrap().shut_down(Err("gone".to_string())).err().unwrap();
    assert_eq!(failure.ack, Some(vec![1]));
    assert_eq!(failure.message, "WAL writer final flush failed on shutdown: gone");
}

#[test]
fn test_atomic_wal_offset_load_never_observes_torn_snapshot() {
    let mut head = AtomicWalOffset::new(at(1, 1_000_000));
    let mut segment_id = 1u64;
    for _ in 0..1000 {
        head.store(at(segment_id, segment_id * 1_000_000));
        let observed = head.load();
        assert_eq!(observed.byte_offset, observed.segment_id * 1_000_000);
        segment_id = if segment_id == 1 { 2 } else { 1 };
    }

    // The words after each write of some stores, and a reader between any of them.
    let mut words = vec![(0u64, 1u64, 1_000_000u64)];
    for segment_id in [1, 2, 1, 2] {
        let (version, old_segment, old_byte) = words[words.len() - 1];
        words.push((version + 1, old_segment, old_byte));
        words.push((version + 1, segment_id, old_byte));
        words.push((version + 1, segment_id, segment_id * 1_000_000));
        words.push((version + 2, segment_id, segment_id * 1_000_000));
    }
    let mut taken = 0;
    for a in 0..words.len() {
        for b in a..words.len() {
            for c in b..words.len() {
                for d in c..words.len() {
                    let read = snapshot(words[a].0, words[b].1, words[c].2, words[d].0);
                    if let Some(observed) = read {
                        assert_eq!(observed.byte_offset, observed.segment_id * 1_000_000);
                        taken += 1;
                    }
                }
            }
        }
    }
    assert!(taken > 0);
    assert_eq!(snapshot(4, 1, 1_000_000, 4), Some(at(1, 1_000_000)));
    assert_eq!(snapshot(4, 1, 2_000_000, 6), None, "a store came in between");
    assert_eq!(snapshot(5, 1, 2_000_000, 5), None, "a store was under way");
}

#[test]
fn corrupt_record_in_sealed_segment_is_skipped_and_following_record_yielded() {
    let mut file = Vec::new();
    let mut buf = Vec::new();
    encode_into(&mut buf, &sample_event(1)).unwrap();
    file.extend_from_slice(&buf);
    file.extend_from_slice(&8u32.to_le_bytes());
    file.extend_from_slice(&[0xFFu8; 8]);
    encode_into(&mut buf, &sample_event(3)).unwrap();
    file.extend_from_slice(&buf);

    let mut disk = Disk::empty();
    disk.segments.insert(1, file);
    disk.segments.insert(2, Vec::new());
    let mut log = open(disk, 1024 * 1024);
    assert_eq!(log.head, at(2, 0));

    let a = log.next().expect("record A");
    assert_eq!(a.event.ts_ms, sample_event(1).ts_ms);
    let c = log.next().expect("record C after skip");
    assert_eq!(c.event.ts_ms, sample_event(3).ts_ms);
    assert_eq!(c.offset.segment_id, 1);
    assert!(log.next().is_none());
}

#[test]
fn bytes_at_the_active_tail_are_waited_for() {
    let mut sub = WalSubscription::new(at(1, 10));
    let outcome = read_one(&mut ByteReader::new(vec![0xFF; 12]), &mut Vec::new());
    assert!(matches!(outcome, ReadOutcome::Corrupt(_)));
    assert!(matches!(sub.on_read(outcome, at(1, 10)), NextStep::WaitOrAdvance));
    assert_eq!(sub.position(), at(1, 10));
    assert_eq!(sub.wait_or_advance(at(1, 10), None), WaitStep::Wait);
    assert_eq!(sub.wait_or_advance(at(1, 10), Some(at(1, 10))), WaitStep::Finished);
    assert_eq!(sub.wait_or_advance(at(1, 10), Some(at(1, 11))), WaitStep::Retry);
    assert!(!sub.skip_corrupt_record(None));
    assert_eq!(sub.wait_or_advance(at(1, 10), Some(at(2, 0))), WaitStep::Retry);
    assert_eq!(sub.position(), at(2, 0));
}

#[test]
fn commit_reclaims_segments_below_committed_segment() {
    let mut disk = Disk::empty();
    for id in 1..=3 {
        disk.segments.insert(id, Vec::new());
    }
    let mut log = open(disk, 1024 * 1024);
    log.commit(at(1, 10));
    assert_eq!(log.disk.ids(), vec![1, 2, 3]);
    log.commit(at(3, 0));
    assert_eq!(log.disk.ids(), vec![3]);
    assert!(log.sub.segments_to_delete(at(3, 5), &vec![1, 2, 3]).is_empty());
}

#[test]
fn a_deletion_that_failed_is_retried_by_the_next_commit() {
    let mut disk = Disk::empty();
    for id in 1..=3 {
        disk.segments.insert(id, Vec::new());
    }
    let mut log = open(disk, 1024 * 1024);
    log.commit_but(at(3, 0), &[1]);
    assert_eq!(log.disk.ids(), vec![1, 3]);
    assert_eq!(log.disk.cursor, Some(write_cursor(at(3, 0))));
    assert!(log.sub.collects(at(3, 0)));
    log.commit(at(3, 0));
    assert_eq!(log.disk.ids(), vec![3]);
    assert!(!log.sub.collects(at(3, 0)));
    assert!(log.sub.segments_to_delete(at(3, 0), &vec![1, 2, 3]).is_empty());
}

#[test]
fn a_record_over_the_limit_takes_only_itself() {
    let mut file = Vec::new();
    let mut buf = Vec::new();
    encode_into(&mut buf, &sample_event(1)).unwrap();
    file.extend_from_slice(&buf);
    let len = 1024 * 1024 + 1;
    file.extend_from_slice(&(len as u32).to_le_bytes());
    file.extend_from_slice(&vec![0u8; len]);
    encode_into(&mut buf, &sample_event(2)).unwrap();
    file.extend_from_slice(&buf);
    let mut disk = Disk::empty();
    disk.segments.insert(1, file);
    disk.segments.insert(2, Vec::new());
    let mut log = open(disk, 1024 * 1024);
    assert_eq!(log.next().unwrap().event.ts_ms, sample_event(1).ts_ms);
    assert_eq!(log.next().unwrap().event.ts_ms, sample_event(2).ts_ms);
    assert!(log.next().is_none());
}

#[test]
fn deliveries_go_forward_in_the_order_of_appending() {
    let mut log = open(Disk::empty(), 200);
    for i in 1..=6 {
        log.append(sample_event(i), None);
    }
    log.close();
    assert!(log.disk.ids().len() > 1);
    let mut before: Option<WalEntry> = None;
    for i in 1..=6 {
        let entry = log.next().unwrap();
        assert_eq!(entry.event.ts_ms, sample_event(i).ts_ms);
        assert!(entry.offset < entry.offset_after);
        assert_eq!(entry.offset.segment_id, entry.offset_after.segment_id);
        assert_eq!(
            entry.offset_after.byte_offset - entry.offset.byte_offset,
            frame_len(&sample_event(i))
        );
        if let Some(earlier) = before {
            assert!(earlier.offset_after <= entry.offset);
        }
        before = Some(entry);
    }
    assert!(log.next().is_none());
}

#[test]
fn a_whole_run_of_the_writer_leaves_the_frames_in_order() {
    let start = {
        let mut log = open(Disk::empty(), 200);
        log.append(sample_event(0), None);
        log.close();
        log.disk
    };
    let mut bytes: Vec<u8> = start.segments.values().flatten().copied().collect();
    let mut log = open(start, 200);
    let mut buf = Vec::new();
    for i in 1..=7 {
        log.append(sample_event(i), if i % 2 == 1 { Some(i as u32) } else { None });
        if i == 4 {
            assert!(log.tick());
        }
        encode_into(&mut buf, &sample_event(i)).unwrap();
        bytes.extend_from_slice(&buf);
    }
    log.close();
    let written: Vec<u8> = log.disk.segments.values().flatten().copied().collect();
    assert_eq!(written, bytes);
    let (last, file) = log.disk.segments.iter().next_back().unwrap();
    assert_eq!(log.head, at(*last, file.len() as u64));
    assert_eq!(log.acked, vec![1, 3, 5, 7]);
    for file in log.disk.segments.values().skip(1) {
        assert!(file.len() <= 200 || file.len() as u64 == frame_len(&sample_event(1)));
    }
}

#[test]
fn first_commit_reclaims_crash_leftover_segments_below_start() {
    let mut disk = Disk::empty();
    for id in 0..=2 {
        disk.segments.insert(id, Vec::new());
    }
    disk.cursor = Some(write_cursor(at(2, 0)));
    let mut log = open(disk, 1024 * 1024);
    log.commit(at(2, 5));
    assert_eq!(log.disk.ids(), vec![2]);
}

enum Resp {
    Taken,
    Retry,
    Perm,
}

/// Flushes a batch into a sink that answers like this, with a cursor that can
/// be written after some failures. How often the sink was called, and the
/// pauses.
fn flush(
    log: &mut Log,
    forwarder: &mut Forwarder,
    responses: Vec<Resp>,
    commit_failures: usize,
) -> (usize, Vec<u64>) {
    let mut responses = responses.into_iter();
    let mut calls = 0;
    let mut pauses = Vec::new();
    let mut attempt = forwarder.flush();
    let mut commit = loop {
        calls += 1;
        assert!(!attempt.events().is_empty());
        let result = match responses.next() {
            Some(Resp::Taken) | None => Ok(()),
            Some(Resp::Retry) => Err(SinkError::Retryable("transient".to_string())),
            Some(Resp::Perm) => Err(SinkError::Permanent("poison".to_string())),
        };
        match attempt.written(result) {
            AfterWrite::Commit(commit) => break commit,
            AfterWrite::Retry { sleep_ms, attempt: again } => {
                assert_eq!(log.disk.cursor, None, "the cursor must not move before the write");
                pauses.push(sleep_ms);
                attempt = again;
            }
        }
    };
    let mut failures = commit_failures;
    loop {
        let written = failures == 0;
        if written {
            log.commit(commit.highest());
        } else {
            failures -= 1;
        }
        match commit.committed(written) {
            AfterCommit::Done => return (calls, pauses),
            AfterCommit::Retry { sleep_ms, attempt: again } => {
                pauses.push(sleep_ms);
                commit = again;
            }
        }
    }
}

/// A log with `n` events in it, and a forwarder with a batch of them.
fn batch(n: u64, flush_interval_ms: u64) -> (Log, Forwarder, WalOffset) {
    let mut log = open(Disk::empty(), 1024 * 1024);
    for i in 0..n {
        log.append(sample_event(i), None);
    }
    log.tick();
    let mut forwarder = Forwarder::new(n as usize, flush_interval_ms);
    assert!(!forwarder.has_entries());
    let mut highest = at(0, 0);
    for i in 0..n {
        let entry = log.next().unwrap();
        highest = entry.offset_after;
        assert_eq!(forwarder.push(entry), i + 1 == n);
    }
    assert!(forwarder.has_entries());
    (log, forwarder, highest)
}

fn cursor(log: &Log) -> Option<WalOffset> {
    read_cursor(log.disk.cursor.as_ref()).unwrap()
}

#[test]
fn flush_retryable_then_success_commits_once_without_dropping() {
    let (mut log, mut forwarder, highest) = batch(2, 1);
    let (calls, _) = flush(&mut log, &mut forwarder, vec![Resp::Retry, Resp::Taken], 0);
    assert_eq!(calls, 2, "batch should be retried then succeed");
    assert!(!forwarder.has_entries(), "batch cleared after success");
    assert_eq!(cursor(&log), Some(highest));
}

#[test]
fn flush_permanent_drops_batch_and_advances_cursor() {
    let (mut log, mut forwarder, highest) = batch(2, 1);
    let (calls, _) = flush(&mut log, &mut forwarder, vec![Resp::Perm], 0);
    assert_eq!(calls, 1, "permanent error must not be retried");
    assert!(!forwarder.has_entries(), "poison batch dropped");
    assert_eq!(cursor(&log), Some(highest));
}

#[test]
fn flush_success_commits_and_advances_cursor() {
    let (mut log, mut forwarder, highest) = batch(1, 1);
    let (calls, _) = flush(&mut log, &mut forwarder, vec![Resp::Taken], 0);
    assert_eq!(calls, 1);
    assert_eq!(cursor(&log), Some(highest));
}

#[test]
fn flush_retries_commit_until_cursor_becomes_writable_without_rewriting_sink() {
    let (mut log, mut forwarder, highest) = batch(1, 5);
    let (calls, pauses) = flush(&mut log, &mut forwarder, vec![Resp::Taken], 3);
    assert_eq!(calls, 1, "sink write must not be replayed while commit is retried");
    assert_eq!(pauses, vec![5, 10, 20]);
    assert_eq!(cursor(&log), Some(highest));
}

#[test]
fn forwarder_outage_retries_and_commits_only_after_recovery() {
    let (mut log, mut forwarder, highest) = batch(1, 60_000);
    let outage = vec![Resp::Retry, Resp::Retry, Resp::Retry, Resp::Retry, Resp::Retry];
    let (calls, pauses) = flush(&mut log, &mut forwarder, outage, 0);
    assert_eq!(calls, 6);
    assert_eq!(pauses, vec![1000, 2000, 4000, 5000, 5000]);
    assert_eq!(cursor(&log), Some(highest));
}

#[test]
fn a_commit_tells_whether_the_batch_was_dropped() {
    let (_log, mut forwarder, highest) = batch(2, 1);
    let result = Err(SinkError::Permanent("poison".to_string()));
    match forwarder.flush().written(result) {
        AfterWrite::Commit(commit) => {
            assert!(commit.dropped());
            assert_eq!(commit.count(), 2);
            assert_eq!(commit.highest(), highest);
        }
        AfterWrite::Retry { .. } => panic!("a permanent error is not retried"),
    }
}

#[test]
fn deleting_committed_segments_takes_nothing_from_the_reader() {
    let mut log = open(Disk::empty(), 256);
    for i in 0..30 {
        log.append(sample_event(i), None);
    }
    log.tick();
    for i in 0..30 {
        let entry = log.next().expect("every event is read once");
        assert_eq!(entry.event.ts_ms, sample_event(i).ts_ms);
        log.commit(entry.offset_after);
    }
    assert!(log.next().is_none());
    assert_eq!(log.disk.ids(), vec![log.head.segment_id]);
}

#[test]
fn segments_stay_within_the_threshold() {
    let mut log = open(Disk::empty(), 300);
    for i in 0..20 {
        log.append(sample_event(i), None);
    }
    log.close();
    assert!(log.disk.segments.values().all(|file| file.len() <= 300));
    let mut log = open(Disk::empty(), 1);
    for i in 0..3 {
        log.append(sample_event(i), None);
    }
    log.close();
    assert_eq!(log.disk.ids(), vec![1, 2, 3], "a record over the threshold stands alone");
}

#[test]
fn batches_are_all_that_was_read() {
    let entry = |i: u64| WalEntry {
        offset: at(1, i * 10),
        offset_after: at(1, i * 10 + 10),
        event: sample_event(i),
    };
    for (size, expected) in [(3, vec![3, 1, 3]), (0, vec![1; 7]), (1, vec![1; 7])] {
        let mut forwarder = Forwarder::new(size, 1000);
        let mut lengths = Vec::new();
        let mut handed = Vec::new();
        let mut committed = None;
        for i in 0..=7 {
            // The interval passes after the fourth entry, the log is closed at the end.
            let due = if i < 7 { forwarder.push(entry(i)) } else { forwarder.has_entries() };
            if due || (i == 3 && forwarder.has_entries()) {
                let attempt = forwarder.flush();
                lengths.push(attempt.events().len());
                handed.extend(attempt.events().iter().map(|e| e.ts_ms));
                match attempt.written(Ok(())) {
                    AfterWrite::Commit(commit) => committed = Some(commit.highest()),
                    AfterWrite::Retry { .. } => panic!("the sink took the batch"),
                }
            }
        }
        assert_eq!(lengths, expected);
        assert_eq!(handed, (0..7).map(|i| sample_event(i).ts_ms).collect::<Vec<_>>());
        assert_eq!(committed, Some(at(1, 70)));
    }
}
