use reqwest::StatusCode;

use smarthome_ingest::infrastructure::cache::http::{
    get_state, list_state, readyz, stream_update, StreamUpdate,
};
use smarthome_ingest::infrastructure::cache::state::{CacheEvent, CacheState};
use smarthome_ingest::infrastructure::schema::{
    rejection_message, JsonSchema, SchemaLoadError, SENSOR_SCHEMA,
};
use smarthome_ingest::infrastructure::sink::influx::{
    build_body, http_write_error, is_permanent_status, AfterSend, InfluxEncoder, InfluxSink,
    SendResult,
};
use smarthome_ingest::infrastructure::sink::point::Point;
use smarthome_ingest::infrastructure::sink::SinkError;
use smarthome_ingest::infrastructure::source::mqtt::{
    dlq_message, MqttSource, SourceAction, SourceEvent,
};
use smarthome_ingest::infrastructure::source::{
    worker_count, worker_queue_capacity, worker_wait, IngestDispatcher, WorkerWait,
};
use smarthome_ingest::infrastructure::wal::types::WalEvent;
use smarthome_ingest::model::messages::{
    HandledMessage, MessageType, Reading, SensorData, SensorMessage, StatusMessage,
};
use smarthome_ingest::model::topic::{TopicPattern, TopicPatternError};
use smarthome_ingest::text::{
    decimal_text, join, lower_ascii, parse_unsigned, signed_decimal_text, split, trim, CharClass,
};
use smarthome_ingest::wire::{push_u32_le, push_u64_be, u32_from_le, u64_from_be};

fn reading(x: f64) -> Reading {
    Reading { bits: x.to_bits(), text: format!("{x}") }
}

fn sensor_msg(device_id: &str) -> SensorMessage {
    SensorMessage {
        device_id: device_id.to_string(),
        room: "room".to_string(),
        device_class: "cls".to_string(),
        fw_version: "1.0".to_string(),
        time_ms: 0,
        time_iso: "2024-01-01T00:00:00Z".to_string(),
        time_valid: true,
        data: SensorData {
            temp_c: reading(20.0),
            rel_hum_perc: reading(50.0),
            pressure_hpa: reading(1013.0),
            gas_ohm: reading(10_000.0),
            iaq_score: reading(80.0),
            iaq_text: "Good".to_string(),
            dew_point_c: reading(9.0),
            heat_index_c: reading(20.0),
            altitude_m: reading(300.0),
        },
    }
}

// ── cache ─────────────────────────────────────────────────────────────────

#[test]
fn update_sensor_stays_within_max_sensors_cap() {
    let mut cache = CacheState::new(60_000, 2);
    cache.update_sensor(&sensor_msg("dev-a"), 1);
    cache.update_sensor(&sensor_msg("dev-b"), 1);
    cache.update_sensor(&sensor_msg("dev-c"), 1);
    let all = cache.snapshot_all_sensors(1);
    assert_eq!(all.len(), 2, "cache must not exceed max_sensors");
    assert!(all.iter().any(|(id, _, _)| id == "dev-c"));
}

#[test]
fn update_sensor_evicts_stalest_entry() {
    let mut cache = CacheState::new(60_000, 2);
    cache.update_sensor(&sensor_msg("dev-old"), 1_000);
    cache.update_sensor(&sensor_msg("dev-new"), 2_000_000_000_000);
    cache.update_sensor(&sensor_msg("dev-c"), 1_700_000_000_000);
    assert!(cache.snapshot_sensor("dev-old", 0).is_none(), "stalest entry must be evicted");
    assert!(cache.snapshot_sensor("dev-new", 0).is_some(), "newer entry must be retained");
    assert!(cache.snapshot_sensor("dev-c", 0).is_some(), "new device must be present");
}

#[test]
fn update_sensor_does_not_evict_on_existing_device_update() {
    let mut cache = CacheState::new(60_000, 2);
    cache.update_sensor(&sensor_msg("dev-a"), 1);
    cache.update_sensor(&sensor_msg("dev-b"), 1);
    cache.update_sensor(&sensor_msg("dev-a"), 2);
    let all = cache.snapshot_all_sensors(2);
    assert_eq!(all.len(), 2, "update of existing device must not change map size");
    assert!(all.iter().any(|(id, _, _)| id == "dev-a"));
    assert!(all.iter().any(|(id, _, _)| id == "dev-b"));
}

#[test]
fn a_state_is_stale_after_its_time() {
    let mut cache = CacheState::new(1_000, 0);
    cache.update_sensor(&sensor_msg("dev-a"), 5_000);
    assert!(!cache.snapshot_sensor("dev-a", 6_000).unwrap().1);
    assert!(cache.snapshot_sensor("dev-a", 6_001).unwrap().1);
    assert!(!cache.snapshot_sensor("dev-a", 0).unwrap().1, "a clock that went back");
    for i in 0..100 {
        cache.update_sensor(&sensor_msg(&format!("dev-{i}")), 5_000);
    }
    assert_eq!(cache.snapshot_all_sensors(0).len(), 101, "no cap at 0");
}

#[test]
fn readyz_returns_503_when_mqtt_not_ready() {
    assert_eq!(readyz(false), 503);
}

#[test]
fn readyz_returns_200_when_mqtt_ready() {
    assert_eq!(readyz(true), 200);
}

#[test]
fn list_state_returns_empty_when_cache_is_empty() {
    let response = list_state(&CacheState::new(60_000, 64), 0);
    assert_eq!(response.ttl_ms, 60_000);
    assert_eq!(response.sensors.len(), 0);
}

#[test]
fn list_state_returns_cached_sensor() {
    let mut cache = CacheState::new(60_000, 64);
    cache.update_sensor(&sensor_msg("esp32-1"), 7);
    let response = list_state(&cache, 60_008);
    assert_eq!(response.sensors.len(), 1);
    assert_eq!(response.sensors[0].device_id, "esp32-1");
    assert_eq!(response.sensors[0].last_seen_ms, 7);
    assert!(response.sensors[0].stale);
    assert_eq!(response.sensors[0].value.iaq_text, "Good");
}

#[test]
fn get_state_returns_null_sensor_for_unknown_device() {
    let cache = CacheState::new(60_000, 64);
    let response = get_state(&cache, "unknown-device".to_string(), 0);
    assert!(response.sensor.is_none());
    assert_eq!(response.device_id, "unknown-device");
}

#[test]
fn get_state_finds_a_sensor_by_its_name_in_any_case() {
    let mut cache = CacheState::new(60_000, 64);
    cache.update_sensor(&sensor_msg("ESP32-1"), 7);
    let response = get_state(&cache, " esp32-1".to_string(), 8);
    assert_eq!(response.device_id, " esp32-1");
    assert_eq!(response.sensor.unwrap().last_seen_ms, 7);
}

#[test]
fn the_stream_gives_events_and_hints() {
    let event = CacheEvent::Sensor {
        device_id: "a".to_string(),
        last_seen_ms: 7,
        value: sensor_msg("a").data,
    };
    match stream_update(Ok(event)) {
        StreamUpdate::Sensor(name, e) => {
            assert_eq!(name, "sensor");
            assert_eq!(e.kind, "sensor");
            assert_eq!(e.device_id, "a");
            assert_eq!(e.last_seen_ms, 7);
        }
        StreamUpdate::Notice(..) => panic!("an event of a sensor is expected"),
    }
    match stream_update(Err(3)) {
        StreamUpdate::Notice(name, hint) => {
            assert_eq!(name, "lagged");
            assert_eq!(hint, "{\"hint\":\"poll /v1/state\"}");
        }
        StreamUpdate::Sensor(..) => panic!("a hint is expected"),
    }
}

// ── sink ──────────────────────────────────────────────────────────────────

fn sample_sensor() -> WalEvent {
    WalEvent {
        topic: "smarthome/dev-1/sensor".to_string(),
        ts_ms: 1_700_000_000_000,
        payload: "bme680,device_id=dev-1 temp_c=21.5 1700000000000".to_string(),
    }
}

fn sample_status() -> WalEvent {
    WalEvent {
        topic: "smarthome/dev-1/status".to_string(),
        ts_ms: 1_700_000_000_000,
        payload: "device_status,device_id=dev-1 rssi=-55i 1700000000000".to_string(),
    }
}

fn status_of(device: &str) -> WalEvent {
    WalEvent {
        topic: format!("smarthome/{device}/status"),
        ts_ms: 1_700_000_000_000,
        payload: format!("device_status,device_id={device} rssi=-55i 1700000000000"),
    }
}

#[test]
fn build_body_joins_mixed_batch_with_newlines() {
    let batch = vec![sample_sensor(), sample_status()];
    let body = build_body(&batch);
    let expected = format!("{}\n{}", batch[0].payload, batch[1].payload);
    assert_eq!(body, expected);
    assert_eq!(body.lines().count(), 2);
}

#[test]
fn build_body_empty_batch_is_empty_string() {
    assert_eq!(build_body(&[]), "");
}

#[test]
fn is_permanent_status_classifies_expected_http_codes() {
    assert!(is_permanent_status(StatusCode::BAD_REQUEST));
    assert!(is_permanent_status(StatusCode::UNAUTHORIZED));
    assert!(is_permanent_status(StatusCode::NOT_FOUND));

    assert!(!is_permanent_status(StatusCode::REQUEST_TIMEOUT));
    assert!(!is_permanent_status(StatusCode::TOO_MANY_REQUESTS));
    assert!(!is_permanent_status(StatusCode::INTERNAL_SERVER_ERROR));
    assert!(!is_permanent_status(StatusCode::SERVICE_UNAVAILABLE));
}

#[test]
fn http_write_error_includes_status_and_body_context() {
    let text = http_write_error(StatusCode::SERVICE_UNAVAILABLE, "outage");
    assert!(text.contains("status=503 Service Unavailable"), "{text}");
    assert!(text.contains("body=outage"), "{text}");
    assert_eq!(text, "Influx write failed: status=503 Service Unavailable body=outage");
}

/// Sends a batch to a server that answers like this. The outcome, how often the
/// batch was sent, and the pauses.
fn write(batch: &[WalEvent], statuses: &[StatusCode]) -> (Result<(), SinkError>, usize, Vec<u64>) {
    let mut attempt = match InfluxSink::begin(batch) {
        Some(attempt) => attempt,
        None => return (Ok(()), 0, Vec::new()),
    };
    let mut sends = 0;
    let mut pauses = Vec::new();
    loop {
        let status = statuses.get(sends).copied().unwrap_or(StatusCode::NO_CONTENT);
        assert_eq!(attempt.body(), build_body(batch));
        sends += 1;
        match attempt.sent(SendResult::Response { status, body: "text".to_string() }) {
            AfterSend::Done(result) => return (result, sends, pauses),
            AfterSend::Retry { delay_secs, attempt: again, cause } => {
                assert!(cause.contains("body=text"), "{cause}");
                pauses.push(delay_secs);
                attempt = again;
            }
        }
    }
}

#[test]
fn sink_write_empty_batch_makes_no_request() {
    let (result, sends, _) = write(&[], &[]);
    assert!(result.is_ok());
    assert_eq!(sends, 0, "empty batch must not POST");
}

#[test]
fn sink_write_posts_line_protocol_body() {
    let batch = [status_of("dev-a"), status_of("dev-b")];
    let (result, sends, _) = write(&batch, &[]);
    assert!(result.is_ok());
    assert_eq!(sends, 1, "expected exactly 1 POST for one write");
    let attempt = InfluxSink::begin(&batch).unwrap();
    let body = attempt.body();
    assert!(body.contains("device_status"), "body: {body}");
    assert!(body.contains("dev-a") && body.contains("dev-b"), "body: {body}");
    assert_eq!(body.lines().count(), 2, "one line per event");
}

#[test]
fn sink_write_http_400_returns_permanent_without_retry() {
    let (result, sends, _) = write(&[sample_status()], &[StatusCode::BAD_REQUEST]);
    match result {
        Err(e @ SinkError::Permanent(_)) => assert_eq!(
            e.message(),
            "permanent sink error: Influx write failed: status=400 Bad Request body=text"
        ),
        _ => panic!("a permanent error is expected"),
    }
    assert_eq!(sends, 1, "400 must not be retried");
}

#[test]
fn sink_write_http_503_retries_and_returns_retryable_after_exhaustion() {
    let statuses = [StatusCode::SERVICE_UNAVAILABLE; 3];
    let (result, sends, pauses) = write(&[sample_status()], &statuses);
    assert!(matches!(result, Err(SinkError::Retryable(_))));
    assert_eq!(sends, 3, "503 must be sent three times");
    assert_eq!(pauses, vec![1, 2]);
}

#[test]
fn a_write_that_gets_no_response_is_retried() {
    let attempt = InfluxSink::begin(&[sample_status()]).unwrap();
    match attempt.sent(SendResult::Failed("timed out".to_string())) {
        AfterSend::Retry { delay_secs, cause, .. } => {
            assert_eq!(delay_secs, 1);
            assert_eq!(cause, "Influx write request failed: timed out");
        }
        AfterSend::Done(_) => panic!("a retry is expected"),
    }
    assert_eq!(
        SinkError::Retryable("down".to_string()).message(),
        "retryable sink error: down"
    );
}

#[test]
fn the_write_url_is_encoded() {
    let sink = InfluxSink::new("http://db:8086//", "my org", "a/b&cä~");
    assert_eq!(
        sink.write_url(),
        "http://db:8086/api/v2/write?org=my%20org&bucket=a%2Fb%26c%C3%A4~&precision=ms"
    );
    assert_eq!(InfluxSink::authorization("t"), "Token t");
}

#[test]
fn a_point_is_escaped_and_sorted() {
    let point = Point::build("m s,x")
        .tag("z", "1 2")
        .tag("a,=", "v\\")
        .field_str("s", "say \"hi\" \\")
        .field_u64("u", 7)
        .field_bool("b", false)
        .field_i64("i", -3)
        .field_f64("f", "1.5")
        .timestamp_ms(-9)
        .build();
    let mut line = String::from("# ");
    point.write_line_protocol(&mut line);
    assert_eq!(
        line,
        "# m\\ s\\,x,a\\,\\==v\\\\,z=1\\ 2 \
         b=false,f=1.5,i=-3i,s=\"say \\\"hi\\\" \\\\\",u=7u -9"
    );
}

#[test]
fn a_time_that_is_not_valid_is_left_to_the_server() {
    let mut status = StatusMessage {
        device_id: "d".to_string(),
        device_class: "c".to_string(),
        fw_version: "f".to_string(),
        ip: "i".to_string(),
        rssi: -1,
        time_ms: 5,
        time_iso: "t".to_string(),
        time_valid: true,
        uptime: 2,
        free_mem: 3,
        ssid: "s".to_string(),
    };
    let mut line = String::new();
    InfluxEncoder.encode(&HandledMessage::Status(status.clone()), &mut line);
    assert_eq!(
        line,
        "device_status,device_class=c,device_id=d,fw_version=f,ip=i \
         free_mem=3i,rssi=-1i,ssid=\"s\",time_iso=\"t\",time_valid=true,uptime=2i 5"
    );
    status.time_valid = false;
    let mut line = String::new();
    InfluxEncoder.encode(&HandledMessage::Status(status), &mut line);
    assert!(line.ends_with("uptime=2i"), "{line}");
}

// ── source ────────────────────────────────────────────────────────────────

#[test]
fn ingest_dispatcher_dispatch_round_robins_across_senders() {
    let mut dispatcher = IngestDispatcher::new(2);
    let workers: Vec<usize> = (0..4).map(|_| dispatcher.dispatch()).collect();
    assert_eq!(workers, vec![0, 1, 0, 1]);
}

#[test]
fn workers_are_counted_and_share_the_queue() {
    assert_eq!(worker_count(None), 4);
    assert_eq!(worker_count(Some(1)), 2);
    assert_eq!(worker_count(Some(5)), 5);
    assert_eq!(worker_count(Some(64)), 8);
    assert_eq!(worker_queue_capacity(16_384, 6), 2730);
}

#[test]
fn recv_worker_job_after_shutdown_drains_queued_messages_before_stopping() {
    assert_eq!(worker_wait(true, false), WorkerWait::Drain);
    assert_eq!(worker_wait(false, true), WorkerWait::Drain);
    assert_eq!(worker_wait(false, false), WorkerWait::Wait);
}

#[test]
fn the_source_follows_the_connection() {
    let mut source = MqttSource::new(false);
    assert!(matches!(source.on_event(SourceEvent::Connected), SourceAction::Poll));
    assert!(source.ready());
    let event = SourceEvent::Message { topic: "t".to_string(), payload: vec![1, 2] };
    match source.on_event(event) {
        SourceAction::Dispatch(job) => {
            assert_eq!(job.topic, "t");
            assert_eq!(job.payload, vec![1, 2]);
        }
        other => panic!("{other:?}"),
    }
    assert!(matches!(source.on_event(SourceEvent::Other), SourceAction::Poll));
    assert!(matches!(source.on_event(SourceEvent::Disconnected), SourceAction::Poll));
    assert!(!source.ready());
    source.on_event(SourceEvent::Connected);
    match source.on_event(SourceEvent::Failed("reset".to_string())) {
        SourceAction::Fail { message, cause } => {
            assert_eq!(message, "MQTT poll failed");
            assert_eq!(cause, "reset");
        }
        other => panic!("{other:?}"),
    }
    assert!(!source.ready());
    let quiet = SourceEvent::Shutdown { signalled: false, closed: false };
    assert!(matches!(source.on_event(quiet), SourceAction::Poll));
    let signalled = SourceEvent::Shutdown { signalled: true, closed: false };
    assert!(matches!(source.on_event(signalled), SourceAction::Stop));
    let closed = SourceEvent::Shutdown { signalled: false, closed: true };
    assert!(matches!(source.on_event(closed), SourceAction::Stop));
}

#[test]
fn a_dead_letter_says_where_it_came_from() {
    let bytes = dlq_message("now", "home/x", "a \"b\"\n", "bad");
    assert_eq!(
        String::from_utf8(bytes).unwrap(),
        "{\"error\":\"bad\",\"payload_raw\":\"a \\\"b\\\"\\n\",\
         \"received_at\":\"now\",\"src_topic\":\"home/x\"}"
    );
}

// ── topics ────────────────────────────────────────────────────────────────

#[test]
fn patterns_match_level_by_level() {
    let pattern = TopicPattern::new("home/+/sensor").unwrap();
    assert!(pattern.matches("home/dev-1/sensor"));
    assert!(pattern.matches("/home/dev-1/sensor/"));
    assert!(!pattern.matches("home/dev-1/status"));
    assert!(!pattern.matches("home/dev-1"));
    assert!(!pattern.matches("home/dev-1/sensor/x"));
    assert_eq!(pattern.device_id_from_topic("home/dev-1/sensor"), Some("dev-1"));

    let pattern = TopicPattern::new("home/#").unwrap();
    assert!(pattern.matches("home/a/b/c"));
    assert!(!pattern.matches("office/a"));

    let pattern = TopicPattern::new("home/sensor").unwrap();
    assert!(pattern.matches("home/sensor"));
    assert_eq!(pattern.device_id_from_topic("home/sensor"), None);
}

#[test]
fn patterns_at_fault_are_refused() {
    assert!(matches!(TopicPattern::new(""), Err(TopicPatternError::Empty)));
    assert!(matches!(TopicPattern::new(" / "), Err(TopicPatternError::Empty)));
    match TopicPattern::new("home//x") {
        Err(e @ TopicPatternError::EmptySegment(_)) => {
            assert_eq!(e.message(), "topic pattern contains empty segment: 'home//x'")
        }
        _ => panic!("an empty segment must be refused"),
    }
    match TopicPattern::new("#/x") {
        Err(e @ TopicPatternError::MultiNotLast(_)) => {
            assert_eq!(e.message(), "'#' must be the last segment in topic pattern: '#/x'")
        }
        _ => panic!("a wildcard for the rest must come last"),
    }
}

// ── schemas ───────────────────────────────────────────────────────────────

#[test]
fn schemas_are_loaded_and_applied() {
    assert!(JsonSchema::new(SENSOR_SCHEMA).is_ok());
    assert!(matches!(JsonSchema::new("{"), Err(SchemaLoadError::Schema)));
    assert!(matches!(
        JsonSchema::new(r#"{"type": "no such type"}"#),
        Err(SchemaLoadError::Compile)
    ));
    let schema = match JsonSchema::new(r#"{"minimum": 3}"#) {
        Ok(schema) => schema,
        Err(e) => panic!("{}", e.message()),
    };
    assert!(schema.validate(&serde_json::Value::from(3)).is_ok());
    let e = schema.validate(&serde_json::Value::from(2)).err().unwrap();
    assert_eq!(e.message, "schema validation failed: 2 is less than the minimum of 3");
}

#[test]
fn a_rejection_stops_at_ten_causes() {
    let schema = match JsonSchema::new(r#"{"items": {"minimum": 3}}"#) {
        Ok(schema) => schema,
        Err(e) => panic!("{}", e.message()),
    };
    let many: Vec<i64> = vec![0; 25];
    let e = schema.validate(&serde_json::Value::from(many)).err().unwrap();
    assert_eq!(e.message.matches(" | ").count(), 9);
    assert_eq!(
        rejection_message(&vec!["a".to_string(), "b".to_string()]),
        "schema validation failed: a | b"
    );
}

// ── text and bytes ────────────────────────────────────────────────────────

#[test]
fn text_is_split_and_joined_back() {
    for s in ["", "a", "/", "a//b", "ä/ö/"] {
        let pieces = split(s, '/');
        assert_eq!(pieces, s.split('/').collect::<Vec<_>>());
        assert_eq!(join(&pieces, "/"), s);
    }
}

#[test]
fn text_is_trimmed_and_lowered() {
    for s in ["", "  ", "\u{3000} a b\t\n", "x", "\u{85}Ä\u{a0}"] {
        let trimmed = trim(s, CharClass::Whitespace);
        assert_eq!(trimmed, s.trim());
        assert_eq!(trim(&trimmed, CharClass::Whitespace), trimmed);
        assert_eq!(lower_ascii(s), s.to_ascii_lowercase());
    }
    assert_eq!(trim("//a/b/", CharClass::Slash), "a/b");
}

#[test]
fn decimal_numbers_are_written_and_read() {
    for n in [0u64, 7, 10, 4096, u64::MAX] {
        assert_eq!(decimal_text(n), n.to_string());
        assert_eq!(parse_unsigned(&n.to_string(), u64::MAX), Some(n));
    }
    for n in [0i64, -1, 5, i64::MIN, i64::MAX] {
        assert_eq!(signed_decimal_text(n), n.to_string());
    }
    for s in ["", "+", "-1", "1 ", "a", "+5", "007", "18446744073709551616"] {
        assert_eq!(parse_unsigned(s, u64::MAX), s.parse::<u64>().ok(), "{s}");
    }
    assert_eq!(parse_unsigned("256", 255), None);
}

#[test]
fn numbers_are_laid_out_in_bytes() {
    let mut out = vec![9];
    push_u32_le(&mut out, 0x01020304);
    assert_eq!(out, vec![9, 4, 3, 2, 1]);
    assert_eq!(u32_from_le(&out[1..]), 0x01020304);
    let mut out = vec![9];
    push_u64_be(&mut out, 0x0102);
    assert_eq!(out, vec![9, 0, 0, 0, 0, 0, 0, 1, 2]);
    assert_eq!(u64_from_be(&out, 1), 0x0102);
}

#[test]
fn kinds_have_names() {
    assert_eq!(MessageType::Sensor.as_str(), "sensor");
    assert_eq!(MessageType::Status.as_str(), "status");
    assert_eq!(HandledMessage::Sensor(sensor_msg("a")).kind(), MessageType::Sensor);
}
