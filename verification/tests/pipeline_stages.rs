use std::sync::Arc;

use serde_json::{Number, Value};

use smarthome_ingest::infrastructure::cache::state::{CacheEvent, CacheState};
use smarthome_ingest::infrastructure::router::{Route, Router};
use smarthome_ingest::infrastructure::schema::{SENSOR_SCHEMA, STATUS_SCHEMA};
use smarthome_ingest::infrastructure::sink::influx::InfluxEncoder;
use smarthome_ingest::infrastructure::wal::types::{TryAppendError, WalEvent};
use smarthome_ingest::model::messages::{
    HandledMessage, MessageType, Reading, SensorData, SensorMessage, StatusMessage,
};
use smarthome_ingest::pipeline::context::{ContextError, PipelineContext};
use smarthome_ingest::pipeline::runner::{PipelineRunner, RunnerStep};
use smarthome_ingest::pipeline::stage::StageFlow;
use smarthome_ingest::pipeline::stages::cache_update::CacheUpdateStage;
use smarthome_ingest::pipeline::stages::decode::{DecodeError, DecodeStage, MAX_PAYLOAD_BYTES};
use smarthome_ingest::pipeline::stages::dlq::{DlqPublication, DlqPublishStage, DlqStep};
use smarthome_ingest::pipeline::stages::observe::ObserveStage;
use smarthome_ingest::pipeline::stages::persist::PersistStage;
use smarthome_ingest::pipeline::stages::transform::{
    SensorDerived, TransformError, TransformStage, TransformStep,
};
use smarthome_ingest::pipeline::stages::validate::ValidateStage;
use smarthome_ingest::pipeline::stages::validate_business::{BusinessError, ValidateBusinessStage};
use smarthome_ingest::pipeline::stages::validate_raw::ValidateRawStage;

// ── values ────────────────────────────────────────────────────────────────

fn json(text: &str) -> Value {
    serde_json::from_str(text).unwrap()
}

fn reading(x: f64) -> Reading {
    Reading { bits: x.to_bits(), text: format!("{x}") }
}

fn route(kind: MessageType, schema: &str, pattern: &str) -> Route {
    match Route::new(kind, schema, pattern) {
        Ok(route) => route,
        Err(e) => panic!("{}", e.message()),
    }
}

fn sensor_router() -> Arc<Router> {
    Arc::new(Router::new().add_route(route(
        MessageType::Sensor,
        SENSOR_SCHEMA,
        "smarthome/+/sensor",
    )))
}

fn dual(strict: bool) -> Arc<Router> {
    Arc::new(
        Router::new()
            .strict(strict)
            .add_route(route(MessageType::Sensor, SENSOR_SCHEMA, "smarthome/+/sensor"))
            .add_route(route(MessageType::Status, STATUS_SCHEMA, "smarthome/+/status")),
    )
}

fn dual_router() -> Arc<Router> {
    dual(true)
}

fn valid_sensor_payload() -> Value {
    json(
        r#"{
            "device_id": "esp32-1",
            "room": "living_room",
            "device_class": "esp32p4-bme680",
            "fw_version": "1.0.0",
            "time_ms": 1700000000000,
            "time_iso": "2023-11-14T22:13:20Z",
            "time_valid": true,
            "data": {
                "temp_c": 22.5,
                "rel_hum_perc": 45.0,
                "pressure_hpa": 1013.25,
                "gas_ohm": 50000.0,
                "altitude_m": 500.0
            }
        }"#,
    )
}

fn valid_status_payload() -> Value {
    json(
        r#"{
            "device_id": "esp32-1",
            "device_class": "esp32p4-bme680",
            "fw_version": "1.0.0",
            "ip": "192.168.1.42",
            "rssi": -65,
            "time_ms": 1700000000000,
            "time_iso": "2023-11-14T22:13:20Z",
            "time_valid": true,
            "uptime": 3600,
            "free_mem": 200000,
            "ssid": "HomeNet"
        }"#,
    )
}

/// The JSON form of a message of a sensor.
fn valid_sensor() -> Value {
    json(
        r#"{
            "device_id": "esp32-1",
            "room": "living_room",
            "device_class": "esp32p4-bme680",
            "fw_version": "1.0.0",
            "time_ms": 1700000000000,
            "time_iso": "2023-11-14T22:13:20Z",
            "time_valid": true,
            "data": {
                "temp_c": 22.5,
                "rel_hum_perc": 45.0,
                "pressure_hpa": 1013.25,
                "gas_ohm": 50000.0,
                "iaq_score": 85.0,
                "iaq_text": "Air quality is Good",
                "dew_point_c": 9.5,
                "heat_index_c": 22.0,
                "altitude_m": 500.0
            }
        }"#,
    )
}

fn sensor_msg(device_id: &str, temp_c: f64) -> SensorMessage {
    SensorMessage {
        device_id: device_id.to_string(),
        room: "living_room".to_string(),
        device_class: "esp32p4-bme680".to_string(),
        fw_version: "1.0.0".to_string(),
        time_ms: 1_700_000_000_000,
        time_iso: "2023-11-14T22:13:20Z".to_string(),
        time_valid: true,
        data: SensorData {
            temp_c: reading(temp_c),
            rel_hum_perc: reading(45.0),
            pressure_hpa: reading(1013.25),
            gas_ohm: reading(50_000.0),
            iaq_score: reading(85.0),
            iaq_text: "Air quality is Good".to_string(),
            dew_point_c: reading(9.5),
            heat_index_c: reading(22.0),
            altitude_m: reading(500.0),
        },
    }
}

fn status_msg() -> StatusMessage {
    StatusMessage {
        device_id: "esp32-1".to_string(),
        device_class: "esp32p4-bme680".to_string(),
        fw_version: "1.0.0".to_string(),
        ip: "192.168.1.42".to_string(),
        rssi: -65,
        time_ms: 1_700_000_000_000,
        time_iso: "2023-11-14T22:13:20Z".to_string(),
        time_valid: true,
        uptime: 3600,
        free_mem: 200_000,
        ssid: "HomeNet".to_string(),
    }
}

fn sensor_message(device_id: &str, temp_c: f64) -> HandledMessage {
    HandledMessage::Sensor(sensor_msg(device_id, temp_c))
}

fn status_message() -> HandledMessage {
    HandledMessage::Status(status_msg())
}

fn ctx_with_json(topic: &str, payload: Value) -> PipelineContext {
    let mut ctx = PipelineContext::new(topic, vec![]);
    ctx.set_payload_json(payload);
    ctx
}

fn ctx_with_message(handled: HandledMessage) -> PipelineContext {
    let mut ctx = PipelineContext::new("smarthome/esp32-1/sensor", vec![]);
    ctx.set_handled_message(handled);
    ctx
}

fn empty_ctx() -> PipelineContext {
    PipelineContext::new("smarthome/esp32-1/sensor", vec![])
}

// ── decode ────────────────────────────────────────────────────────────────

#[test]
fn decode_payload_returns_string_and_json_for_valid_payload() {
    let raw = br#"{"device_id":"esp32-1","temp_c":22.4}"#;
    match DecodeStage::decode_payload(raw) {
        Ok(payload_json) => {
            assert_eq!(payload_json, json(r#"{"device_id": "esp32-1", "temp_c": 22.4}"#));
            assert_eq!(payload_json["device_id"], "esp32-1");
            assert_eq!(payload_json["temp_c"], 22.4);
        }
        Err(err) => panic!("expected Ok, got Err: {err:?}"),
    }
}

#[test]
fn decode_payload_accepts_valid_json_array() {
    let raw = br#"[{"sensor":"a"},{"sensor":"b"}]"#;
    match DecodeStage::decode_payload(raw) {
        Ok(payload_json) => {
            assert_eq!(payload_json[0]["sensor"], "a");
            assert_eq!(payload_json[1]["sensor"], "b");
            assert_eq!(payload_json.as_array().unwrap().len(), 2);
        }
        Err(err) => panic!("expected Ok, got Err: {err:?}"),
    }
}

#[test]
fn decode_payload_accepts_valid_json_scalar() {
    let raw = br#"42"#;
    match DecodeStage::decode_payload(raw) {
        Ok(payload_json) => assert_eq!(payload_json, Value::from(42)),
        Err(err) => panic!("expected Ok, got Err: {err:?}"),
    }
}

#[test]
fn decode_payload_returns_utf8_error_for_non_utf8_payload() {
    match DecodeStage::decode_payload(&[0xff, 0xfe, 0xfd]) {
        Err(DecodeError::Utf8(_)) => {}
        Ok(value) => panic!("expected Utf8 error, got Ok: {value:?}"),
        Err(other) => panic!("expected Utf8 error, got different error: {other:?}"),
    }
}

#[test]
fn decode_payload_returns_json_error_and_preserves_payload_string() {
    match DecodeStage::decode_payload(br#"{"device_id":"esp32-1""#) {
        Err(DecodeError::Json { payload_str, source: _ }) => {
            assert_eq!(payload_str, r#"{"device_id":"esp32-1""#)
        }
        Ok(value) => panic!("expected Json error, got Ok: {value:?}"),
        Err(other) => panic!("expected Json error, got different error: {other:?}"),
    }
}

#[test]
fn decode_payload_rejects_empty_payload_as_json_error() {
    match DecodeStage::decode_payload(b"") {
        Err(DecodeError::Json { payload_str, source: _ }) => assert_eq!(payload_str, ""),
        Ok(value) => panic!("expected Json error, got Ok: {value:?}"),
        Err(other) => panic!("expected Json error, got different error: {other:?}"),
    }
}

#[test]
fn decode_payload_returns_json_error_for_whitespace_only_payload() {
    match DecodeStage::decode_payload(b"   ") {
        Err(DecodeError::Json { payload_str, source: _ }) => assert_eq!(payload_str, "   "),
        Ok(value) => panic!("expected Json error, got Ok: {value:?}"),
        Err(other) => panic!("expected Json error, got different error: {other:?}"),
    }
}

#[test]
fn decode_payload_rejects_oversized_payload_with_actual_size() {
    let size = MAX_PAYLOAD_BYTES + 1;
    let raw = vec![b'x'; size];
    assert!(matches!(
        DecodeStage::decode_payload(&raw),
        Err(DecodeError::TooLarge(n)) if n == size
    ));
}

#[test]
fn decode_payload_accepts_payload_at_size_limit() {
    let raw = vec![b'x'; MAX_PAYLOAD_BYTES];
    assert!(matches!(DecodeStage::decode_payload(&raw), Err(DecodeError::Json { .. })));
}

#[test]
fn run_on_valid_payload_sets_context_and_returns_continue() {
    let raw = br#"{"device_id":"esp32-1","temp_c":22.4}"#.to_vec();
    let mut ctx = PipelineContext::new("home/sensor/esp32-1", raw);
    let (flow, _) = DecodeStage::new().run(&mut ctx);
    assert_eq!(flow, StageFlow::Continue);
    assert!(!ctx.should_publish_dlq());
    assert_eq!(
        ctx.payload_json().unwrap(),
        &json(r#"{"device_id": "esp32-1", "temp_c": 22.4}"#)
    );
}

#[test]
fn run_on_oversized_payload_marks_dlq_and_returns_stop() {
    let raw = vec![b'x'; MAX_PAYLOAD_BYTES + 1];
    let mut ctx = PipelineContext::new("home/sensor/esp32-1", raw);
    let (flow, _) = DecodeStage::new().run(&mut ctx);
    assert_eq!(flow, StageFlow::Stop);
    assert!(ctx.should_publish_dlq());
    assert!(ctx.dlq_reason().unwrap().contains("too large"));
    assert_eq!(ctx.dlq_reason(), Some("payload too large: 65537 bytes"));
}

#[test]
fn run_on_non_utf8_payload_marks_dlq_and_returns_stop() {
    let mut ctx = PipelineContext::new("home/sensor/esp32-1", vec![0xff, 0xfe, 0xfd]);
    let (flow, _) = DecodeStage::new().run(&mut ctx);
    assert_eq!(flow, StageFlow::Stop);
    assert!(ctx.should_publish_dlq());
    assert_eq!(ctx.dlq_reason().unwrap(), "payload not utf8");
}

#[test]
fn run_on_invalid_json_sets_utf8_marks_dlq_and_returns_stop() {
    let raw = br#"{"device_id":"esp32-1""#.to_vec();
    let mut ctx = PipelineContext::new("home/sensor/esp32-1", raw);
    let (flow, _) = DecodeStage::new().run(&mut ctx);
    assert_eq!(flow, StageFlow::Stop);
    assert!(ctx.should_publish_dlq());
    assert_eq!(ctx.dlq_reason().unwrap(), "payload not valid JSON");
    assert_eq!(ctx.payload_utf8().unwrap(), r#"{"device_id":"esp32-1""#);
}

// ── transform ─────────────────────────────────────────────────────────────

/// The sentence for a score, by way of the index.
fn calc_iaq_text(score: f64) -> String {
    TransformStage::calc_iaq_text(((100.0 - score) * 5.0).to_bits())
}

#[test]
fn calc_iaq_text_good_when_score_above_89_8() {
    assert_eq!(calc_iaq_text(90.0), "Air quality is Good");
}

#[test]
fn calc_iaq_text_moderate_at_score_threshold_51() {
    assert_eq!(calc_iaq_text(89.7), "Air quality is Moderate");
}

#[test]
fn calc_iaq_text_unhealthy_for_sensitive_groups_at_threshold_151() {
    assert_eq!(calc_iaq_text(69.7), "Air quality is Unhealthy for Sensitive Groups");
}

#[test]
fn calc_iaq_text_unhealthy_at_threshold_176() {
    assert_eq!(calc_iaq_text(64.7), "Air quality is Unhealthy");
}

#[test]
fn calc_iaq_text_very_unhealthy_at_threshold_201() {
    assert_eq!(calc_iaq_text(59.7), "Air quality is Very Unhealthy");
}

#[test]
fn calc_iaq_text_hazardous_at_threshold_301() {
    assert_eq!(calc_iaq_text(39.7), "Air quality is Hazardous");
}

#[test]
fn calc_iaq_text_at_the_bounds_and_beyond() {
    for (index, words) in [
        (301.0, "Hazardous"),
        (300.9, "Very Unhealthy"),
        (201.0, "Very Unhealthy"),
        (176.0, "Unhealthy"),
        (151.0, "Unhealthy for Sensitive Groups"),
        (51.0, "Moderate"),
        (50.9, "Good"),
        (0.0, "Good"),
        (-1000.0, "Good"),
        (f64::INFINITY, "Hazardous"),
        (f64::NEG_INFINITY, "Good"),
        (f64::NAN, "Good"),
    ] {
        assert_eq!(
            TransformStage::calc_iaq_text(index.to_bits()),
            format!("Air quality is {words}")
        );
    }
}

fn derived() -> SensorDerived {
    SensorDerived {
        dew_point_c: Number::from_f64(9.5),
        heat_index_c: Number::from_f64(22.0),
        iaq_score: Number::from_f64(85.0),
        iaq_index: (15.0f64 * 5.0).to_bits(),
        pressure_hpa: Number::from_f64(1013.25),
        altitude_m: Number::from_f64(500.0),
    }
}

/// Both halves of the transformation of a message of a sensor.
fn transform_sensor_payload(payload: &mut Value) -> Result<(), TransformError> {
    TransformStage::read_sensor_payload(payload)?;
    TransformStage::store_sensor_payload(payload, derived())
}

/// A message of a sensor with another reading.
fn sensor_payload_with(key: &str, x: f64) -> Value {
    let mut payload = valid_sensor_payload();
    payload["data"][key] = Value::from(x);
    payload
}

#[test]
fn transform_sensor_payload_adds_all_derived_fields() {
    let mut payload = valid_sensor_payload();
    transform_sensor_payload(&mut payload).unwrap();
    let data = payload["data"].as_object().unwrap();
    assert!(data.contains_key("dew_point_c"), "dew_point_c missing");
    assert!(data.contains_key("heat_index_c"), "heat_index_c missing");
    assert!(data.contains_key("iaq_score"), "iaq_score missing");
    assert!(data.contains_key("iaq_text"), "iaq_text missing");
    assert_eq!(data["iaq_score"], 85.0);
    assert_eq!(data["iaq_text"], "Air quality is Moderate");
    assert_eq!(data["temp_c"], 22.5);
}

#[test]
fn transform_sensor_payload_trims_whitespace_from_string_fields() {
    let mut payload = valid_sensor_payload();
    payload["device_id"] = Value::from("  esp32-1  ");
    payload["room"] = Value::from("  living_room  ");
    transform_sensor_payload(&mut payload).unwrap();
    assert_eq!(payload["device_id"], "esp32-1");
    assert_eq!(payload["room"], "living_room");
    let once = payload.clone();
    transform_sensor_payload(&mut payload).unwrap();
    assert_eq!(payload, once);
}

#[test]
fn transform_sensor_payload_returns_err_when_data_missing() {
    let mut payload = valid_sensor_payload();
    payload.as_object_mut().unwrap().remove("data");
    let err = transform_sensor_payload(&mut payload).unwrap_err();
    assert_eq!(err.message(), "sensor.data missing or not an object");
    assert!(TransformStage::store_sensor_payload(&mut payload, derived()).is_err());
}

#[test]
fn transform_sensor_payload_returns_err_when_required_field_missing() {
    let mut payload = valid_sensor_payload();
    payload["data"].as_object_mut().unwrap().remove("temp_c");
    let err = transform_sensor_payload(&mut payload).unwrap_err();
    assert_eq!(err.message(), "missing or non-numeric field: sensor.data.temp_c");
}

#[test]
fn transform_sensor_payload_returns_err_when_rel_hum_is_zero() {
    let err = transform_sensor_payload(&mut sensor_payload_with("rel_hum_perc", 0.0)).unwrap_err();
    assert_eq!(err.message(), "sensor.data.rel_hum_perc must be in (0,100], got 0");
}

#[test]
fn transform_sensor_payload_returns_err_when_rel_hum_exceeds_100() {
    let err =
        transform_sensor_payload(&mut sensor_payload_with("rel_hum_perc", 100.1)).unwrap_err();
    assert_eq!(err.message(), "sensor.data.rel_hum_perc must be in (0,100], got 100.1");
}

#[test]
fn transform_sensor_payload_accepts_rel_hum_at_boundary_100() {
    assert!(transform_sensor_payload(&mut sensor_payload_with("rel_hum_perc", 100.0)).is_ok());
}

#[test]
fn transform_sensor_payload_returns_err_when_gas_ohm_is_zero() {
    let err = transform_sensor_payload(&mut sensor_payload_with("gas_ohm", 0.0)).unwrap_err();
    assert_eq!(err.message(), "sensor.data.gas_ohm must be > 0, got 0");
    assert!(transform_sensor_payload(&mut sensor_payload_with("gas_ohm", -0.0)).is_err());
    assert!(transform_sensor_payload(&mut sensor_payload_with("gas_ohm", -1.0)).is_err());
}

#[test]
fn transform_sensor_payload_returns_err_when_pressure_below_300() {
    let err =
        transform_sensor_payload(&mut sensor_payload_with("pressure_hpa", 299.9)).unwrap_err();
    assert_eq!(
        err.message(),
        "sensor.data.pressure_hpa out of transform-safe range [300,1200], got 299.9"
    );
}

#[test]
fn transform_sensor_payload_returns_err_when_pressure_above_1200() {
    assert!(transform_sensor_payload(&mut sensor_payload_with("pressure_hpa", 1200.1)).is_err());
    assert!(transform_sensor_payload(&mut sensor_payload_with("pressure_hpa", -500.0)).is_err());
}

#[test]
fn transform_sensor_payload_accepts_pressure_at_lower_boundary_300() {
    assert!(transform_sensor_payload(&mut sensor_payload_with("pressure_hpa", 300.0)).is_ok());
}

#[test]
fn transform_sensor_payload_accepts_pressure_at_upper_boundary_1200() {
    assert!(transform_sensor_payload(&mut sensor_payload_with("pressure_hpa", 1200.0)).is_ok());
}

#[test]
fn a_derived_number_that_is_not_finite_is_not_stored() {
    let mut payload = valid_sensor_payload();
    let mut not_finite = derived();
    not_finite.heat_index_c = Number::from_f64(f64::NAN);
    let err = TransformStage::store_sensor_payload(&mut payload, not_finite).unwrap_err();
    assert_eq!(err.message(), "cannot store non-finite float in field heat_index_c");
    assert_eq!(payload["data"]["dew_point_c"], 9.5);
    assert!(payload["data"].get("iaq_score").is_none());
}

#[test]
fn an_integer_reading_counts_as_a_number() {
    let mut payload = valid_sensor_payload();
    payload["data"]["pressure_hpa"] = Value::from(1000);
    let inputs = TransformStage::read_sensor_payload(&mut payload).unwrap();
    assert_eq!(inputs.pressure_hpa.bits, 1000f64.to_bits());
    assert_eq!(inputs.pressure_hpa.text, "1000");
    assert_eq!(inputs.temp_c.text, "22.5");
}

#[test]
fn transform_status_payload_succeeds_on_valid_payload() {
    let mut payload = valid_status_payload();
    TransformStage::transform_status_payload(&mut payload);
    assert_eq!(payload, valid_status_payload());
}

#[test]
fn transform_status_payload_trims_whitespace_from_string_fields() {
    let mut payload = valid_status_payload();
    payload["device_id"] = Value::from("  esp32-1  ");
    payload["ip"] = Value::from("  192.168.1.42  ");
    TransformStage::transform_status_payload(&mut payload);
    assert_eq!(payload["device_id"], "esp32-1");
    assert_eq!(payload["ip"], "192.168.1.42");
    let once = payload.clone();
    TransformStage::transform_status_payload(&mut payload);
    assert_eq!(payload, once);
}

#[test]
fn transform_status_payload_sets_defaults_for_missing_optional_fields() {
    let mut payload = valid_status_payload();
    let obj = payload.as_object_mut().unwrap();
    obj.remove("uptime");
    obj.remove("free_mem");
    obj.remove("ssid");
    TransformStage::transform_status_payload(&mut payload);
    assert_eq!(payload["uptime"], 0);
    assert_eq!(payload["free_mem"], 0);
    assert_eq!(payload["ssid"], "");
}

#[test]
fn transform_status_payload_does_not_overwrite_existing_optional_fields() {
    let mut payload = valid_status_payload();
    TransformStage::transform_status_payload(&mut payload);
    assert_eq!(payload["uptime"], 3600_i64);
    assert_eq!(payload["free_mem"], 200_000_i64);
    assert_eq!(payload["ssid"], "HomeNet");
}

/// Runs the stage to its end; the messages are read as these.
fn run_transform(
    stage: &TransformStage,
    ctx: &mut PipelineContext,
) -> Result<(StageFlow, &'static str), ContextError> {
    let step = match stage.begin(ctx)? {
        TransformStep::Derive(_) => stage.derived(ctx, derived())?,
        other => other,
    };
    match step {
        TransformStep::Stopped(label) => Ok((StageFlow::Stop, label)),
        TransformStep::Read(MessageType::Sensor) => {
            Ok(stage.finish(ctx, Ok(sensor_message("esp32-1", 22.5))))
        }
        TransformStep::Read(MessageType::Status) => Ok(stage.finish(ctx, Ok(status_message()))),
        TransformStep::Derive(_) => unreachable!(),
    }
}

#[test]
fn run_on_valid_sensor_payload_sets_handled_message_and_returns_continue() {
    let stage = TransformStage::new(dual_router());
    let mut ctx = ctx_with_json("smarthome/esp32-1/sensor", valid_sensor_payload());
    let result = run_transform(&stage, &mut ctx);
    assert!(matches!(result, Ok((StageFlow::Continue, _))));
    assert!(!ctx.should_publish_dlq());
    assert!(ctx.ignored_reason().is_none());
    assert!(matches!(ctx.handled_message().unwrap(), HandledMessage::Sensor(_)));
    assert_eq!(ctx.payload_json().unwrap()["data"]["dew_point_c"], 9.5);
}

#[test]
fn run_on_valid_status_payload_sets_handled_message_and_returns_continue() {
    let stage = TransformStage::new(dual_router());
    let mut ctx = ctx_with_json("smarthome/esp32-1/status", valid_status_payload());
    let result = run_transform(&stage, &mut ctx);
    assert!(matches!(result, Ok((StageFlow::Continue, _))));
    assert!(!ctx.should_publish_dlq());
    assert!(ctx.ignored_reason().is_none());
    assert!(matches!(ctx.handled_message().unwrap(), HandledMessage::Status(_)));
}

#[test]
fn run_on_unknown_topic_marks_ignored_and_stops() {
    let stage = TransformStage::new(dual(false));
    let mut ctx = ctx_with_json("home/unknown/device", valid_sensor_payload());
    let result = run_transform(&stage, &mut ctx);
    assert!(matches!(result, Ok((StageFlow::Stop, "ignored"))));
    assert!(ctx.ignored_reason().is_some());
    assert!(!ctx.should_publish_dlq());
}

#[test]
fn run_on_invalid_sensor_bounds_marks_dlq_and_stops() {
    let stage = TransformStage::new(dual_router());
    let payload = sensor_payload_with("rel_hum_perc", 0.0);
    let mut ctx = ctx_with_json("smarthome/esp32-1/sensor", payload);
    let result = run_transform(&stage, &mut ctx);
    assert!(matches!(result, Ok((StageFlow::Stop, "failed"))));
    assert!(ctx.should_publish_dlq());
    assert!(ctx.dlq_reason().unwrap().contains("transform failed"));
}

#[test]
fn transform_run_without_payload_json_in_context_returns_error() {
    let stage = TransformStage::new(dual_router());
    let mut ctx = empty_ctx();
    assert!(run_transform(&stage, &mut ctx).is_err());
    assert!(!ctx.should_publish_dlq());
    assert!(stage.derived(&mut ctx, derived()).is_err());
}

#[test]
fn a_message_that_cannot_be_read_is_marked() {
    let stage = TransformStage::new(dual_router());
    let mut ctx = ctx_with_json("smarthome/esp32-1/status", valid_status_payload());
    assert!(matches!(
        stage.begin(&mut ctx),
        Ok(TransformStep::Read(MessageType::Status))
    ));
    let (flow, label) = stage.finish(&mut ctx, Err("missing field `rssi`".to_string()));
    assert_eq!((flow, label), (StageFlow::Stop, "failed"));
    assert_eq!(
        ctx.dlq_reason(),
        Some("post-transform deserialization failed: missing field `rssi`")
    );
}

// ── business validation ───────────────────────────────────────────────────

fn business() -> ValidateBusinessStage {
    match ValidateBusinessStage::new() {
        Ok(stage) => stage,
        Err(e) => panic!("{}", e.message()),
    }
}

/// The JSON form of a message.
fn form(message: &HandledMessage) -> Value {
    let mut members = serde_json::Map::new();
    let mut put = |key: &str, value: Value| {
        members.insert(key.to_string(), value);
    };
    match message {
        HandledMessage::Sensor(msg) => {
            let number = |reading: &Reading| Value::from(f64::from_bits(reading.bits));
            let data = &msg.data;
            let mut inner = serde_json::Map::new();
            for (key, reading) in [
                ("temp_c", &data.temp_c),
                ("rel_hum_perc", &data.rel_hum_perc),
                ("pressure_hpa", &data.pressure_hpa),
                ("gas_ohm", &data.gas_ohm),
                ("iaq_score", &data.iaq_score),
                ("dew_point_c", &data.dew_point_c),
                ("heat_index_c", &data.heat_index_c),
                ("altitude_m", &data.altitude_m),
            ] {
                inner.insert(key.to_string(), number(reading));
            }
            inner.insert("iaq_text".to_string(), Value::from(data.iaq_text.as_str()));
            put("device_id", Value::from(msg.device_id.as_str()));
            put("room", Value::from(msg.room.as_str()));
            put("device_class", Value::from(msg.device_class.as_str()));
            put("fw_version", Value::from(msg.fw_version.as_str()));
            put("time_ms", Value::from(msg.time_ms));
            put("time_iso", Value::from(msg.time_iso.as_str()));
            put("time_valid", Value::from(msg.time_valid));
            put("data", Value::Object(inner));
        }
        HandledMessage::Status(msg) => {
            put("device_id", Value::from(msg.device_id.as_str()));
            put("device_class", Value::from(msg.device_class.as_str()));
            put("fw_version", Value::from(msg.fw_version.as_str()));
            put("ip", Value::from(msg.ip.as_str()));
            put("rssi", Value::from(msg.rssi));
            put("time_ms", Value::from(msg.time_ms));
            put("time_iso", Value::from(msg.time_iso.as_str()));
            put("time_valid", Value::from(msg.time_valid));
            put("uptime", Value::from(msg.uptime));
            put("free_mem", Value::from(msg.free_mem));
            put("ssid", Value::from(msg.ssid.as_str()));
        }
    }
    Value::Object(members)
}

fn passes(message: HandledMessage) -> bool {
    business().validate_handled_message(&message, Some(&form(&message))).is_ok()
}

fn sensor_passes(change: fn(&mut SensorMessage)) -> bool {
    let mut message = sensor_msg("esp32-1", 22.5);
    change(&mut message);
    passes(HandledMessage::Sensor(message))
}

fn status_passes(change: fn(&mut StatusMessage)) -> bool {
    let mut message = status_msg();
    change(&mut message);
    passes(HandledMessage::Status(message))
}

#[test]
fn messages_have_the_json_forms_that_are_expected() {
    assert_eq!(form(&sensor_message("esp32-1", 22.5)), valid_sensor());
    assert_eq!(form(&status_message()), valid_status_payload());
}

#[test]
fn validate_handled_message_accepts_valid_sensor() {
    assert!(sensor_passes(|_| {}));
}

#[test]
fn validate_handled_message_rejects_sensor_with_empty_device_id() {
    assert!(!sensor_passes(|m| m.device_id = String::new()));
}

#[test]
fn validate_handled_message_rejects_sensor_with_negative_time_ms() {
    assert!(!sensor_passes(|m| m.time_ms = -1));
}

#[test]
fn validate_handled_message_rejects_sensor_with_rel_hum_at_zero() {
    assert!(!sensor_passes(|m| m.data.rel_hum_perc = reading(0.0)));
}

#[test]
fn validate_handled_message_rejects_sensor_with_rel_hum_above_100() {
    assert!(!sensor_passes(|m| m.data.rel_hum_perc = reading(100.1)));
}

#[test]
fn validate_handled_message_rejects_sensor_with_gas_ohm_at_zero() {
    assert!(!sensor_passes(|m| m.data.gas_ohm = reading(0.0)));
}

#[test]
fn validate_handled_message_rejects_sensor_with_iaq_score_above_100() {
    assert!(!sensor_passes(|m| m.data.iaq_score = reading(100.1)));
}

#[test]
fn validate_handled_message_rejects_sensor_with_empty_iaq_text() {
    assert!(!sensor_passes(|m| m.data.iaq_text = String::new()));
}

#[test]
fn validate_handled_message_accepts_sensor_with_rel_hum_at_100() {
    assert!(sensor_passes(|m| m.data.rel_hum_perc = reading(100.0)));
}

#[test]
fn validate_handled_message_accepts_sensor_with_iaq_score_at_0() {
    assert!(sensor_passes(|m| m.data.iaq_score = reading(0.0)));
}

#[test]
fn validate_handled_message_accepts_sensor_with_iaq_score_at_100() {
    assert!(sensor_passes(|m| m.data.iaq_score = reading(100.0)));
}

#[test]
fn validate_handled_message_accepts_valid_status() {
    assert!(status_passes(|_| {}));
}

#[test]
fn validate_handled_message_rejects_status_with_empty_device_id() {
    assert!(!status_passes(|m| m.device_id = String::new()));
}

#[test]
fn validate_handled_message_rejects_status_with_empty_ip() {
    assert!(!status_passes(|m| m.ip = String::new()));
}

#[test]
fn validate_handled_message_rejects_status_with_negative_uptime() {
    assert!(!status_passes(|m| m.uptime = -1));
}

#[test]
fn validate_handled_message_rejects_status_with_negative_free_mem() {
    assert!(!status_passes(|m| m.free_mem = -1));
}

#[test]
fn a_rejection_gives_its_causes() {
    let mut message = status_msg();
    message.uptime = -1;
    message.ip = String::new();
    let message = HandledMessage::Status(message);
    match business().validate_handled_message(&message, Some(&form(&message))) {
        Err(BusinessError::Schema(MessageType::Status, e)) => {
            assert!(e.message.starts_with("schema validation failed: "), "{}", e.message);
            assert_eq!(e.message.matches(" | ").count(), 1, "{}", e.message);
            assert!(e.message.contains("-1"), "{}", e.message);
        }
        _ => panic!("the schema must reject the message"),
    }
    assert!(matches!(
        business().validate_handled_message(&message, None),
        Err(BusinessError::Serialize(MessageType::Status))
    ));
}

#[test]
fn run_on_valid_sensor_returns_continue() {
    let mut ctx = ctx_with_message(sensor_message("esp32-1", 22.5));
    let result = business().run(&mut ctx, Some(&valid_sensor()));
    assert!(matches!(result, Ok((StageFlow::Continue, "success"))));
    assert!(!ctx.should_publish_dlq());
}

#[test]
fn run_on_valid_status_returns_continue() {
    let mut ctx = ctx_with_message(status_message());
    let result = business().run(&mut ctx, Some(&valid_status_payload()));
    assert!(matches!(result, Ok((StageFlow::Continue, "success"))));
    assert!(!ctx.should_publish_dlq());
}

#[test]
fn run_on_business_violation_marks_dlq_and_stops() {
    let message = form(&sensor_message("", 22.5));
    let mut ctx = ctx_with_message(sensor_message("", 22.5));
    let result = business().run(&mut ctx, Some(&message));
    assert!(matches!(result, Ok((StageFlow::Stop, "failed"))));
    assert!(ctx.should_publish_dlq());
    assert!(ctx.dlq_reason().unwrap().contains("business validation failed"));
    assert_eq!(
        ctx.dlq_reason(),
        Some("business validation failed: sensor business schema validation failed")
    );
}

#[test]
fn run_without_handled_message_in_context_returns_error() {
    let mut ctx = empty_ctx();
    assert!(business().run(&mut ctx, Some(&valid_sensor())).is_err());
    assert!(!ctx.should_publish_dlq());
}

// ── raw validation ────────────────────────────────────────────────────────

#[test]
fn run_on_valid_sensor_payload_returns_continue() {
    let stage = ValidateRawStage::new(sensor_router(), false);
    let mut ctx = ctx_with_json("smarthome/esp32-1/sensor", valid_sensor_payload());
    assert!(matches!(stage.run(&mut ctx), Ok((StageFlow::Continue, "success"))));
    assert!(!ctx.should_publish_dlq());
    assert!(ctx.ignored_reason().is_none());
}

#[test]
fn run_on_unknown_topic_with_non_strict_router_marks_ignored_and_stops() {
    let stage = ValidateRawStage::new(dual(false), false);
    let mut ctx = ctx_with_json("home/unknown/topic", valid_sensor_payload());
    assert!(matches!(stage.run(&mut ctx), Ok((StageFlow::Stop, _))));
    assert!(!ctx.should_publish_dlq());
    assert_eq!(ctx.ignored_reason(), Some("no matching route"));
}

#[test]
fn run_on_unknown_topic_with_strict_router_marks_dlq_and_stops() {
    let stage = ValidateRawStage::new(sensor_router(), false);
    let mut ctx = ctx_with_json("home/unknown/topic", valid_sensor_payload());
    assert!(matches!(stage.run(&mut ctx), Ok((StageFlow::Stop, _))));
    assert!(ctx.should_publish_dlq());
    assert_eq!(
        ctx.dlq_reason(),
        Some("raw validation failed: No route registered for topic: home/unknown/topic")
    );
}

#[test]
fn run_on_schema_invalid_payload_marks_dlq_and_stops() {
    let stage = ValidateRawStage::new(sensor_router(), false);
    let payload = json(r#"{"device_id": "esp32-1"}"#);
    let mut ctx = ctx_with_json("smarthome/esp32-1/sensor", payload);
    assert!(matches!(stage.run(&mut ctx), Ok((StageFlow::Stop, _))));
    assert!(ctx.should_publish_dlq());
    assert!(ctx.dlq_reason().unwrap().contains("raw validation failed"));
}

#[test]
fn run_on_invalid_time_iso_marks_dlq_and_stops() {
    let stage = ValidateRawStage::new(sensor_router(), false);
    let mut payload = valid_sensor_payload();
    payload["time_iso"] = Value::from("not-a-timestamp");
    let mut ctx = ctx_with_json("smarthome/esp32-1/sensor", payload);
    assert!(matches!(stage.run(&mut ctx), Ok((StageFlow::Stop, _))));
    assert!(ctx.should_publish_dlq());
    assert_eq!(
        ctx.dlq_reason(),
        Some("raw validation failed: time_iso not RFC3339: not-a-timestamp")
    );
}

#[test]
fn run_with_device_id_mismatch_when_enforced_marks_dlq_and_stops() {
    let stage = ValidateRawStage::new(sensor_router(), true);
    let mut payload = valid_sensor_payload();
    payload["device_id"] = Value::from("esp32-2");
    let mut ctx = ctx_with_json("smarthome/esp32-1/sensor", payload);
    assert!(matches!(stage.run(&mut ctx), Ok((StageFlow::Stop, _))));
    assert!(ctx.should_publish_dlq());
    assert_eq!(
        ctx.dlq_reason(),
        Some(
            "raw validation failed: device_id mismatch: topic has 'esp32-1', payload has 'esp32-2'"
        )
    );
}

#[test]
fn run_with_device_id_mismatch_when_not_enforced_returns_continue() {
    let stage = ValidateRawStage::new(sensor_router(), false);
    let mut payload = valid_sensor_payload();
    payload["device_id"] = Value::from("esp32-2");
    let mut ctx = ctx_with_json("smarthome/esp32-1/sensor", payload);
    assert!(matches!(stage.run(&mut ctx), Ok((StageFlow::Continue, _))));
    assert!(!ctx.should_publish_dlq());
}

#[test]
fn validate_raw_run_without_payload_json_in_context_returns_error() {
    let stage = ValidateRawStage::new(sensor_router(), false);
    let mut ctx = empty_ctx();
    assert!(stage.run(&mut ctx).is_err());
    assert!(!ctx.should_publish_dlq());
}

#[test]
fn run_on_valid_status_payload_returns_continue() {
    let stage = ValidateRawStage::new(dual_router(), false);
    let mut payload = valid_status_payload();
    let obj = payload.as_object_mut().unwrap();
    obj.remove("uptime");
    obj.remove("free_mem");
    obj.remove("ssid");
    let mut ctx = ctx_with_json("smarthome/esp32-1/status", payload);
    assert!(matches!(stage.run(&mut ctx), Ok((StageFlow::Continue, _))));
    assert!(!ctx.should_publish_dlq());
}

#[test]
fn a_topic_that_names_no_device_fails_where_devices_must_match() {
    let router = Arc::new(
        Router::new().add_route(route(MessageType::Sensor, SENSOR_SCHEMA, "home/sensor")),
    );
    let stage = ValidateRawStage::new(router, true);
    let mut ctx = ctx_with_json("home/sensor", valid_sensor_payload());
    assert!(matches!(stage.run(&mut ctx), Ok((StageFlow::Stop, "failed"))));
    assert_eq!(
        ctx.dlq_reason(),
        Some("raw validation failed: Failed to extract device_id from topic")
    );
}

#[test]
fn validation_in_one_step_keeps_the_message() {
    let stage = ValidateStage::new(dual_router(), true);
    let mut ctx = ctx_with_json("smarthome/esp32-1/sensor", valid_sensor_payload());
    let read = Some(sensor_message("esp32-1", 22.5));
    assert!(matches!(stage.run(&mut ctx, read), Ok((StageFlow::Continue, "success"))));
    assert!(matches!(ctx.handled_message(), Ok(HandledMessage::Sensor(_))));

    let mut ctx = ctx_with_json("smarthome/esp32-1/status", valid_status_payload());
    assert!(matches!(stage.run(&mut ctx, None), Ok((StageFlow::Stop, "failed"))));
    assert_eq!(
        ctx.dlq_reason(),
        Some(
            "validation failed: status: deserialization failed (topic=smarthome/esp32-1/status)"
        )
    );

    let stage = ValidateStage::new(dual(false), true);
    let mut ctx = ctx_with_json("home/unknown", valid_status_payload());
    assert!(matches!(stage.run(&mut ctx, None), Ok((StageFlow::Stop, _))));
    assert_eq!(ctx.ignored_reason(), Some("no matching route"));
    assert!(stage.run(&mut empty_ctx(), None).is_err());
}

// ── cache ─────────────────────────────────────────────────────────────────

fn cache() -> CacheState {
    CacheState::new(60_000, 16)
}

#[test]
fn cache_update_run_on_sensor_message_returns_continue() {
    let ctx = ctx_with_message(sensor_message("esp32-1", 22.5));
    let result = CacheUpdateStage::new().run(&ctx, &mut cache(), 0);
    assert!(matches!(result, Ok((StageFlow::Continue, _))));
    assert!(!ctx.should_publish_dlq());
}

#[test]
fn cache_update_run_on_status_message_returns_continue() {
    let ctx = ctx_with_message(status_message());
    let result = CacheUpdateStage::new().run(&ctx, &mut cache(), 0);
    assert!(matches!(result, Ok((StageFlow::Continue, None))));
    assert!(!ctx.should_publish_dlq());
}

#[test]
fn cache_update_run_without_handled_message_returns_error() {
    let ctx = empty_ctx();
    assert!(CacheUpdateStage::new().run(&ctx, &mut cache(), 0).is_err());
    assert!(!ctx.should_publish_dlq());
}

fn run_cache_update(cache: &mut CacheState, msg: HandledMessage, now: u64) -> Option<CacheEvent> {
    CacheUpdateStage::new().run(&ctx_with_message(msg), cache, now).unwrap().1
}

#[test]
fn run_stores_sensor_data_in_cache_retrievable_by_device_id() {
    let mut cache = cache();
    run_cache_update(&mut cache, sensor_message("esp32-1", 22.5), 7);
    let (state, _stale) = cache.snapshot_sensor("esp32-1", 7).expect("device not found");
    assert!((f64::from_bits(state.value.temp_c.bits) - 22.5).abs() < f64::EPSILON);
}

#[test]
fn run_normalizes_device_id_to_lowercase_in_cache() {
    let mut cache = cache();
    run_cache_update(&mut cache, sensor_message("ESP32-1", 20.0), 7);
    assert!(cache.snapshot_sensor("esp32-1", 7).is_some());
    assert!(cache.snapshot_sensor(" Esp32-1 ", 7).is_some());
}

#[test]
fn run_overwrites_previous_sensor_data_on_second_update() {
    let mut cache = cache();
    run_cache_update(&mut cache, sensor_message("esp32-1", 20.0), 7);
    run_cache_update(&mut cache, sensor_message("esp32-1", 30.0), 8);
    let (state, _stale) = cache.snapshot_sensor("esp32-1", 8).unwrap();
    assert!((f64::from_bits(state.value.temp_c.bits) - 30.0).abs() < f64::EPSILON);
    assert_eq!(state.last_seen_ms, 8);
}

#[test]
fn run_stores_multiple_devices_independently() {
    let mut cache = cache();
    run_cache_update(&mut cache, sensor_message("esp32-a", 21.0), 7);
    run_cache_update(&mut cache, sensor_message("esp32-b", 25.0), 7);
    assert_eq!(cache.snapshot_all_sensors(7).len(), 2);
}

#[test]
fn run_on_status_message_does_not_insert_into_sensor_cache() {
    let mut cache = cache();
    run_cache_update(&mut cache, status_message(), 7);
    assert!(cache.snapshot_all_sensors(7).is_empty());
}

#[test]
fn run_broadcasts_cache_event_for_sensor_update() {
    let mut cache = cache();
    match run_cache_update(&mut cache, sensor_message("esp32-1", 22.5), 7) {
        Some(CacheEvent::Sensor { device_id, last_seen_ms, .. }) => {
            assert_eq!(device_id, "esp32-1");
            assert_eq!(last_seen_ms, 7);
        }
        None => panic!("expected a broadcast event"),
    }
}

// ── dead-letter queue, counting, persisting ───────────────────────────────

fn ctx_with_dlq_reason(reason: &str) -> PipelineContext {
    let mut ctx = PipelineContext::new("smarthome/esp32-1/sensor", b"raw payload".to_vec());
    ctx.mark_dlq(reason);
    ctx
}

#[test]
fn run_without_dlq_reason_returns_stop_without_publishing() {
    let stage = DlqPublishStage::new("smarthome/_dlq/ingest");
    let step = stage.run(&empty_ctx(), "2024-01-01T00:00:00+00:00");
    assert!(matches!(step, DlqStep::Ended(StageFlow::Stop)));
}

/// What the stage publishes of a message.
fn publication(stage: &DlqPublishStage, ctx: &PipelineContext) -> DlqPublication {
    match stage.run(ctx, "2024-01-01T00:00:00+00:00") {
        DlqStep::Publish(publication) => publication,
        DlqStep::Ended(_) => panic!("something is to be published"),
    }
}

#[test]
fn run_with_dlq_reason_returns_stop_when_publish_succeeds() {
    let stage = DlqPublishStage::new("smarthome/_dlq/ingest");
    let ctx = ctx_with_dlq_reason("schema validation failed");
    assert_eq!(publication(&stage, &ctx).topic, "smarthome/_dlq/ingest");
    assert_eq!(stage.published(Ok(())), (StageFlow::Stop, "success"));
}

#[test]
fn run_with_dlq_reason_returns_stop_even_when_publish_fails() {
    let stage = DlqPublishStage::new("smarthome/_dlq/ingest");
    let ctx = ctx_with_dlq_reason("schema validation failed");
    assert_eq!(publication(&stage, &ctx).topic, "smarthome/_dlq/ingest");
    let result = Err("the event loop is gone".to_string());
    assert_eq!(stage.published(result), (StageFlow::Stop, "failed"));
}

#[test]
fn run_uses_configured_dlq_topic() {
    let stage = DlqPublishStage::new("custom/dlq/topic");
    let ctx = ctx_with_dlq_reason("some error");
    let publication = publication(&stage, &ctx);
    assert_eq!(publication.topic, "custom/dlq/topic");
    assert_eq!(
        String::from_utf8(publication.bytes).unwrap(),
        "{\"error\":\"some error\",\"payload_raw\":\"raw payload\",\
         \"received_at\":\"2024-01-01T00:00:00+00:00\",\
         \"src_topic\":\"smarthome/esp32-1/sensor\"}"
    );
}

#[test]
fn the_first_reason_stays() {
    let mut ctx = ctx_with_dlq_reason("first");
    ctx.mark_dlq("second");
    assert_eq!(ctx.dlq_reason(), Some("first"));
    ctx.mark_ignored("one");
    ctx.mark_ignored("two");
    assert_eq!(ctx.ignored_reason(), Some("one"));
}

#[test]
fn a_payload_that_is_no_text_is_replaced_on_the_dead_letter_queue() {
    let ctx = PipelineContext::new("t", vec![0xff, 0xfe]);
    assert!(!ctx.payload_for_dlq().is_empty());
    let mut ctx = PipelineContext::new("t", b"raw".to_vec());
    assert_eq!(ctx.payload_for_dlq(), "raw");
    ctx.set_payload_utf8("decoded".to_string());
    assert_eq!(ctx.payload_for_dlq(), "decoded");
    assert_eq!(ctx.raw_payload(), &b"raw".to_vec());
    assert!(ctx.started_at() <= std::time::Instant::now());
}

#[test]
fn context_errors_name_what_is_missing() {
    let ctx = empty_ctx();
    assert_eq!(
        ctx.payload_utf8().unwrap_err().message(),
        "payload_utf8 missing in pipeline context"
    );
    assert_eq!(
        ctx.payload_json().unwrap_err().message(),
        "payload_json missing in pipeline context"
    );
    assert_eq!(
        ctx.handled_message().unwrap_err().message(),
        "handled_message missing in pipeline context"
    );
    assert_eq!(ctx.line_protocol(), None);
}

#[test]
fn observe_run_on_sensor_message_returns_continue() {
    let ctx = ctx_with_message(sensor_message("esp32-1", 22.5));
    let result = ObserveStage::new().run(&ctx);
    assert!(matches!(result, Ok((StageFlow::Continue, MessageType::Sensor))));
    assert!(!ctx.should_publish_dlq());
}

#[test]
fn observe_run_on_status_message_returns_continue() {
    let ctx = ctx_with_message(status_message());
    let result = ObserveStage::new().run(&ctx);
    assert!(matches!(result, Ok((StageFlow::Continue, MessageType::Status))));
    assert!(!ctx.should_publish_dlq());
}

#[test]
fn observe_run_without_handled_message_returns_error() {
    let ctx = empty_ctx();
    assert!(ObserveStage::new().run(&ctx).is_err());
    assert!(!ctx.should_publish_dlq());
}

fn persist() -> PersistStage {
    PersistStage::new(InfluxEncoder)
}

#[test]
fn run_on_sensor_message_appends_to_wal_and_returns_continue() {
    let mut ctx = ctx_with_message(sensor_message("esp32-1", 22.5));
    let event = persist().event(&ctx, 42).unwrap();
    assert_eq!(event.topic, "smarthome/esp32-1/sensor");
    assert_eq!(event.ts_ms, 42);
    assert_eq!(
        event.payload,
        "bme680,device_class=esp32p4-bme680,device_id=esp32-1,fw_version=1.0.0,room=living_room \
         altitude_m=500,dew_point_c=9.5,gas_ohm=50000,heat_index_c=22,\
         iaq_score=85,iaq_text=\"Air quality is Good\",pressure_hpa=1013.25,rel_hum_perc=45,\
         temp_c=22.5,time_valid=true 1700000000000"
    );
    let (flow, _) = persist().appended(&mut ctx, Ok(()));
    assert_eq!(flow, StageFlow::Continue);
    assert!(!ctx.should_publish_dlq());
}

#[test]
fn run_on_status_message_appends_to_wal_and_returns_continue() {
    let ctx = ctx_with_message(status_message());
    let event = persist().event(&ctx, 42).unwrap();
    assert!(event.payload.starts_with("device_status,"), "{}", event.payload);
    assert!(event.payload.contains("rssi=-65i"), "{}", event.payload);
}

fn wal_event() -> WalEvent {
    WalEvent { topic: "t".to_string(), ts_ms: 0, payload: "p".to_string() }
}

#[test]
fn run_marks_dlq_with_queue_full_when_wal_queue_is_saturated() {
    let mut ctx = ctx_with_message(sensor_message("esp32-1", 22.5));
    let (flow, _) = persist().appended(&mut ctx, Err(TryAppendError::Full(wal_event())));
    assert_eq!(flow, StageFlow::Stop);
    assert_eq!(ctx.dlq_reason(), Some("wal queue full"));
}

#[test]
fn run_marks_dlq_with_queue_closed_when_wal_writer_has_exited() {
    let mut ctx = ctx_with_message(sensor_message("esp32-1", 22.5));
    let (flow, _) = persist().appended(&mut ctx, Err(TryAppendError::Closed(wal_event())));
    assert_eq!(flow, StageFlow::Stop);
    assert!(ctx.should_publish_dlq());
    assert_eq!(ctx.dlq_reason(), Some("wal queue closed"));
}

#[test]
fn persist_run_without_handled_message_returns_error() {
    let ctx = empty_ctx();
    assert!(persist().event(&ctx, 42).is_err());
    assert!(!ctx.should_publish_dlq());
}

// ── the pipeline as a whole ───────────────────────────────────────────────

/// The stages that do not need the network or the disk.
enum Stage {
    Decode(DecodeStage),
    ValidateRaw(ValidateRawStage),
    Transform(TransformStage),
    ValidateBusiness(ValidateBusinessStage),
    CacheUpdate(CacheUpdateStage),
    Persist(PersistStage),
    Observe(ObserveStage),
    Dlq(DlqPublishStage),
}

/// What a run left behind.
struct Outcome {
    log: Vec<WalEvent>,
    cache: CacheState,
    dlq: Vec<Vec<u8>>,
}

fn pipeline(router: Arc<Router>) -> PipelineRunner<Stage> {
    PipelineRunner::new()
        .add_stage(Stage::Decode(DecodeStage::new()))
        .add_stage(Stage::ValidateRaw(ValidateRawStage::new(router.clone(), false)))
        .add_stage(Stage::Transform(TransformStage::new(router)))
        .add_stage(Stage::ValidateBusiness(business()))
        .add_stage(Stage::CacheUpdate(CacheUpdateStage::new()))
        .add_stage(Stage::Persist(persist()))
        .add_stage(Stage::Observe(ObserveStage::new()))
        .with_failure_stage(Stage::Dlq(DlqPublishStage::new("smarthome/_dlq/ingest")))
}

fn run_stage(
    stage: &Stage,
    ctx: &mut PipelineContext,
    out: &mut Outcome,
) -> (&'static str, Result<StageFlow, String>) {
    match stage {
        Stage::Decode(s) => (s.name(), Ok(s.run(ctx).0)),
        Stage::ValidateRaw(s) => (s.name(), s.run(ctx).map(|r| r.0).map_err(|e| e.message())),
        Stage::Transform(s) => (
            s.name(),
            run_transform(s, ctx).map(|r| r.0).map_err(|e| e.message()),
        ),
        Stage::ValidateBusiness(s) => {
            let message = form(ctx.handled_message().unwrap());
            (s.name(), s.run(ctx, Some(&message)).map(|r| r.0).map_err(|e| e.message()))
        }
        Stage::CacheUpdate(s) => (
            s.name(),
            s.run(ctx, &mut out.cache, 7).map(|r| r.0).map_err(|e| e.message()),
        ),
        Stage::Persist(s) => match s.event(ctx, 42) {
            Ok(event) => {
                out.log.push(event);
                (s.name(), Ok(s.appended(ctx, Ok(())).0))
            }
            Err(e) => (s.name(), Err(e.message())),
        },
        Stage::Observe(s) => (s.name(), s.run(ctx).map(|r| r.0).map_err(|e| e.message())),
        Stage::Dlq(s) => {
            let flow = match s.run(ctx, "2024-01-01T00:00:00+00:00") {
                DlqStep::Publish(publication) => {
                    out.dlq.push(publication.bytes);
                    s.published(Ok(())).0
                }
                DlqStep::Ended(flow) => flow,
            };
            (s.name(), Ok(flow))
        }
    }
}

fn run_pipeline(router: Arc<Router>, topic: &str, payload: Vec<u8>) -> (PipelineContext, Outcome) {
    let runner = pipeline(router);
    let mut ctx = PipelineContext::new(topic, payload);
    let mut out = Outcome { log: Vec::new(), cache: CacheState::new(60_000, 64), dlq: Vec::new() };
    let mut step = runner.start(&ctx);
    loop {
        match step {
            RunnerStep::Stage(i) => {
                let (name, result) = run_stage(runner.stage(i).unwrap(), &mut ctx, &mut out);
                step = runner.after_stage(i, name, result, &mut ctx);
            }
            RunnerStep::FailureStage => {
                run_stage(runner.failure_stage().unwrap(), &mut ctx, &mut out);
                return (ctx, out);
            }
            RunnerStep::Unhandled | RunnerStep::Done => return (ctx, out),
        }
    }
}

#[test]
fn valid_sensor_message_processes_end_to_end() {
    let payload = valid_sensor_payload().to_string().into_bytes();
    let (ctx, out) = run_pipeline(dual_router(), "smarthome/esp32-1/sensor", payload);
    assert!(!ctx.should_publish_dlq(), "{:?}", ctx.dlq_reason());
    assert!(ctx.ignored_reason().is_none());
    assert_eq!(out.log.len(), 1);
    assert_eq!(out.log[0].topic, "smarthome/esp32-1/sensor");
    assert!(out.log[0].payload.contains("bme680"));
    assert!(out.cache.snapshot_sensor("esp32-1", 7).is_some());
    assert!(out.dlq.is_empty());
}

#[test]
fn valid_status_message_processes_end_to_end() {
    let payload = valid_status_payload().to_string().into_bytes();
    let (ctx, out) = run_pipeline(dual_router(), "smarthome/esp32-1/status", payload);
    assert!(!ctx.should_publish_dlq(), "{:?}", ctx.dlq_reason());
    assert_eq!(out.log.len(), 1);
    assert!(out.log[0].payload.contains("device_status"));
}

#[test]
fn schema_invalid_payload_goes_to_dlq() {
    let payload = br#"{
        "device_id": "esp32-1",
        "room": "living_room",
        "device_class": "cls",
        "fw_version": "1.0",
        "time_ms": 0,
        "time_iso": "2024-01-01T00:00:00Z",
        "time_valid": true
    }"#;
    let (ctx, out) = run_pipeline(dual_router(), "smarthome/esp32-1/sensor", payload.to_vec());
    assert!(ctx.should_publish_dlq(), "expected DLQ for schema-invalid payload");
    assert!(out.log.is_empty(), "WAL must be empty when pipeline fails");
    assert_eq!(out.dlq.len(), 1);
}

#[test]
fn transform_failure_goes_to_dlq() {
    let payload = sensor_payload_with("rel_hum_perc", 0.0).to_string().into_bytes();
    let (ctx, out) = run_pipeline(dual_router(), "smarthome/esp32-1/sensor", payload);
    assert!(ctx.should_publish_dlq(), "expected DLQ when transform bounds check fails");
    assert!(out.log.is_empty(), "WAL must be empty when pipeline fails");
}

#[test]
fn oversized_payload_goes_to_dlq() {
    let payload = vec![b'x'; 64 * 1024 + 1];
    let (ctx, out) = run_pipeline(dual_router(), "smarthome/esp32-1/sensor", payload);
    assert!(ctx.should_publish_dlq(), "expected DLQ for oversized payload");
    assert!(ctx.dlq_reason().unwrap_or("").contains("too large"));
    assert!(out.log.is_empty(), "WAL must be empty when pipeline fails");
}

#[test]
fn unknown_topic_strict_mode_goes_to_dlq() {
    let payload = valid_sensor_payload().to_string().into_bytes();
    let (ctx, out) = run_pipeline(dual_router(), "smarthome/unknown/foo", payload);
    assert!(ctx.should_publish_dlq(), "expected DLQ for unknown topic in strict mode");
    assert!(out.log.is_empty(), "WAL must be empty");
}

#[test]
fn unknown_topic_non_strict_mode_is_ignored() {
    let payload = valid_sensor_payload().to_string().into_bytes();
    let (ctx, out) = run_pipeline(dual(false), "smarthome/unknown/foo", payload);
    assert!(ctx.ignored_reason().is_some(), "expected ignored for unknown topic");
    assert!(!ctx.should_publish_dlq(), "expected no DLQ in non-strict mode");
    assert!(out.log.is_empty(), "WAL must be empty for ignored message");
    assert!(out.dlq.is_empty());
}

#[test]
fn a_stage_that_fails_marks_the_message() {
    let runner: PipelineRunner<u8> = PipelineRunner::new().add_stage(1).add_stage(2);
    let mut ctx = empty_ctx();
    assert_eq!(runner.start(&ctx), RunnerStep::Stage(0));
    assert_eq!(
        runner.after_stage(0, "first", Ok(StageFlow::Continue), &mut ctx),
        RunnerStep::Stage(1)
    );
    assert_eq!(
        runner.after_stage(1, "second", Ok(StageFlow::Continue), &mut ctx),
        RunnerStep::Done
    );
    assert_eq!(
        runner.after_stage(0, "first", Err("boom".to_string()), &mut ctx),
        RunnerStep::Unhandled
    );
    assert_eq!(ctx.dlq_reason(), Some("stage 'first' failed: boom"));
    let runner = runner.with_failure_stage(3);
    assert_eq!(
        runner.after_stage(0, "first", Ok(StageFlow::Stop), &mut ctx),
        RunnerStep::FailureStage
    );
    assert_eq!(runner.stage(1), Some(&2));
    assert_eq!(runner.stage(2), None);
    let none: PipelineRunner<u8> = PipelineRunner::new();
    assert_eq!(none.start(&empty_ctx()), RunnerStep::Done);
}

#[test]
fn the_first_route_that_matches_wins() {
    let router = Router::new()
        .add_route(route(MessageType::Status, STATUS_SCHEMA, "smarthome/special/+"))
        .add_route(route(MessageType::Sensor, SENSOR_SCHEMA, "smarthome/+/sensor"))
        .add_route(route(MessageType::Status, STATUS_SCHEMA, "smarthome/#"));
    assert_eq!(
        router.message_type_for_topic("smarthome/special/sensor"),
        Some(MessageType::Status)
    );
    assert_eq!(
        router.message_type_for_topic("smarthome/esp32-1/sensor"),
        Some(MessageType::Sensor)
    );
    assert_eq!(
        router.message_type_for_topic("smarthome/esp32-1/other/level"),
        Some(MessageType::Status)
    );
    assert_eq!(router.message_type_for_topic("office/esp32-1/sensor"), None);
}

#[test]
fn a_context_keeps_a_line() {
    let mut ctx = empty_ctx();
    ctx.set_line_protocol("m f=1".to_string());
    assert_eq!(ctx.line_protocol(), Some("m f=1"));
    assert_eq!(ctx.topic(), "smarthome/esp32-1/sensor");
}

#[test]
fn stages_have_names() {
    assert_eq!(DecodeStage::new().name(), "decode");
    assert_eq!(ValidateRawStage::new(sensor_router(), true).name(), "validate_raw");
    assert_eq!(ValidateStage::new(sensor_router(), true).name(), "ValidateStage");
    assert_eq!(TransformStage::new(sensor_router()).name(), "transform");
    assert_eq!(business().name(), "validate_business");
    assert_eq!(CacheUpdateStage::new().name(), "cache_update");
    assert_eq!(persist().name(), "persist");
    assert_eq!(ObserveStage::new().name(), "observe");
    assert_eq!(DlqPublishStage::new("t").name(), "dlq_publish");
}
