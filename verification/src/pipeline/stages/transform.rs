//! Transformation: from what a device sent to the canonical form.

use std::sync::Arc;

use serde_json::{Number, Value};
use vstd::arithmetic::power2::{
    lemma2_to64, lemma2_to64_rest, lemma_pow2_adds, lemma_pow2_pos, lemma_pow2_strictly_increases,
    lemma_pow2_unfold, pow2,
};
use vstd::prelude::*;

use crate::infrastructure::json;
use crate::infrastructure::json::{double_text, integer_node, json_node, number_node, JsonNode};
use crate::infrastructure::router::Router;
use crate::model::messages::{HandledMessage, MessageType, Reading};
use crate::pipeline::context::{ContextError, ContextView, PipelineContext};
use crate::pipeline::stage::StageFlow;
use crate::text;
use crate::text::CharClass;

verus! {

/// The bit pattern of the double 100.
pub const HUNDRED_BITS: u64 = 0x4059000000000000;

/// The bit pattern of the double 300.
pub const THREE_HUNDRED_BITS: u64 = 0x4072c00000000000;

/// The bit pattern of the double 1200.
pub const TWELVE_HUNDRED_BITS: u64 = 0x4092c00000000000;

/// The sign bit of a double.
pub const SIGN_BIT: u64 = 0x8000000000000000;

/// Whether the double with this bit pattern is over 0. The patterns of doubles
/// without a sign are in the order of the doubles, and 0 has pattern 0.
pub open spec fn positive(bits: u64) -> bool {
    0 < bits < SIGN_BIT
}

/// Whether the double with this bit pattern is over 0 and at most 100.
pub open spec fn humidity_in_range(bits: u64) -> bool {
    0 < bits <= HUNDRED_BITS
}

/// Whether the double with this bit pattern is at least 300 and at most 1200.
pub open spec fn pressure_in_range(bits: u64) -> bool {
    THREE_HUNDRED_BITS <= bits <= TWELVE_HUNDRED_BITS
}

/// The bit pattern of the double with no bound above.
pub const INFINITY_BITS: u64 = 0x7ff0000000000000;

/// Whether the double with the pattern `bits` is at least the one with the
/// pattern `bound`, which is over 0. The patterns over that of infinity and
/// under the sign bit are no numbers.
pub open spec fn at_least(bits: u64, bound: u64) -> bool {
    bound <= bits <= INFINITY_BITS
}

/// The words on the quality of the air, by the index with this bit pattern: the
/// bounds are 301, 201, 176, 151 and 51.
pub open spec fn air_quality(index: u64) -> Seq<char> {
    if at_least(index, 0x4072d00000000000) {
        "Hazardous"@
    } else if at_least(index, 0x4069200000000000) {
        "Very Unhealthy"@
    } else if at_least(index, 0x4066000000000000) {
        "Unhealthy"@
    } else if at_least(index, 0x4062e00000000000) {
        "Unhealthy for Sensitive Groups"@
    } else if at_least(index, 0x4049800000000000) {
        "Moderate"@
    } else {
        "Good"@
    }
}

/// The message with the white space around a text member removed.
pub open spec fn trim_member(node: JsonNode, key: Seq<char>) -> JsonNode {
    match node.member_text(key) {
        Some(s) => node.with_member(key, JsonNode::Text(text::trimmed(s))),
        None => node,
    }
}

/// The message with a member put in, if it has none with this key.
pub open spec fn default_member(node: JsonNode, key: Seq<char>, value: JsonNode) -> JsonNode {
    match node.member(key) {
        Some(_) => node,
        None => node.with_member(key, value),
    }
}

/// A message of a sensor with its texts trimmed.
pub open spec fn trimmed_sensor(node: JsonNode) -> JsonNode {
    let a = trim_member(node, "device_id"@);
    let b = trim_member(a, "room"@);
    let c = trim_member(b, "device_class"@);
    let d = trim_member(c, "fw_version"@);
    trim_member(d, "time_iso"@)
}

/// A message on the state of a device with its texts trimmed.
pub open spec fn trimmed_status(node: JsonNode) -> JsonNode {
    let a = trim_member(node, "device_id"@);
    let b = trim_member(a, "device_class"@);
    let c = trim_member(b, "fw_version"@);
    let d = trim_member(c, "ip"@);
    let e = trim_member(d, "time_iso"@);
    trim_member(e, "ssid"@)
}

/// A message on the state of a device in its canonical form: texts trimmed, and
/// what it may leave out put in.
pub open spec fn canonical_status(node: JsonNode) -> JsonNode {
    let a = default_member(trimmed_status(node), "uptime"@, integer_node(0));
    let b = default_member(a, "free_mem"@, integer_node(0));
    default_member(b, "ssid"@, JsonNode::Text(""@))
}

/// What is wrong with the data of a sensor.
pub enum SensorFault {
    DataMissing,
    FieldMissing(Seq<char>),
    Humidity(u64),
    Gas(u64),
    Pressure(u64),
}

/// The first thing that is wrong with a message of a sensor, if anything is:
/// that it has no data, then that a number is missing, then that one is out of
/// its range.
pub open spec fn sensor_fault(node: JsonNode) -> Option<SensorFault> {
    match node.member("data"@) {
        Some(data) => if !(data is Object) {
            Some(SensorFault::DataMissing)
        } else if data.member_double("temp_c"@) is None {
            Some(SensorFault::FieldMissing("temp_c"@))
        } else if data.member_double("rel_hum_perc"@) is None {
            Some(SensorFault::FieldMissing("rel_hum_perc"@))
        } else if data.member_double("pressure_hpa"@) is None {
            Some(SensorFault::FieldMissing("pressure_hpa"@))
        } else if data.member_double("gas_ohm"@) is None {
            Some(SensorFault::FieldMissing("gas_ohm"@))
        } else if data.member_double("altitude_m"@) is None {
            Some(SensorFault::FieldMissing("altitude_m"@))
        } else if !humidity_in_range(data.member_double("rel_hum_perc"@)->0) {
            Some(SensorFault::Humidity(data.member_double("rel_hum_perc"@)->0))
        } else if !positive(data.member_double("gas_ohm"@)->0) {
            Some(SensorFault::Gas(data.member_double("gas_ohm"@)->0))
        } else if !pressure_in_range(data.member_double("pressure_hpa"@)->0) {
            Some(SensorFault::Pressure(data.member_double("pressure_hpa"@)->0))
        } else {
            None
        },
        None => Some(SensorFault::DataMissing),
    }
}

/// Why a message cannot be transformed.
#[derive(Debug)]
pub enum TransformError {
    DataMissing,
    /// This number is missing.
    FieldMissing(&'static str),
    /// The humidity is this, which is out of range.
    Humidity(Reading),
    /// The gas resistance is this, which is out of range.
    Gas(Reading),
    /// The pressure is this, which is out of range.
    Pressure(Reading),
    /// This derived number is not finite.
    NonFinite(&'static str),
}

impl TransformError {
    /// The text of the error.
    pub open spec fn text(&self) -> Seq<char> {
        match self {
            TransformError::DataMissing => "sensor.data missing or not an object"@,
            TransformError::FieldMissing(key) => "missing or non-numeric field: sensor.data."@
                + key@,
            TransformError::Humidity(r) => "sensor.data.rel_hum_perc must be in (0,100], got "@
                + r.text@,
            TransformError::Gas(r) => "sensor.data.gas_ohm must be > 0, got "@ + r.text@,
            TransformError::Pressure(r) =>
                "sensor.data.pressure_hpa out of transform-safe range [300,1200], got "@ + r.text@,
            TransformError::NonFinite(key) => "cannot store non-finite float in field "@ + key@,
        }
    }

    /// Whether this is the error of such a fault.
    pub open spec fn is_fault(&self, fault: SensorFault) -> bool {
        match fault {
            SensorFault::DataMissing => *self is DataMissing,
            SensorFault::FieldMissing(key) => *self matches TransformError::FieldMissing(k) && k@
                == key,
            SensorFault::Humidity(bits) => *self matches TransformError::Humidity(r) && r.bits
                == bits && r.text@ == double_text(bits),
            SensorFault::Gas(bits) => *self matches TransformError::Gas(r) && r.bits == bits
                && r.text@ == double_text(bits),
            SensorFault::Pressure(bits) => *self matches TransformError::Pressure(r) && r.bits
                == bits && r.text@ == double_text(bits),
        }
    }

    pub fn message(&self) -> (s: String)
        ensures
            s@ == self.text(),
    {
        match self {
            TransformError::DataMissing => {
                String::from_str("sensor.data missing or not an object")
            },
            TransformError::FieldMissing(key) => {
                let mut s = String::from_str("missing or non-numeric field: sensor.data.");
                s.append(key);
                s
            },
            TransformError::Humidity(r) => {
                let mut s = String::from_str("sensor.data.rel_hum_perc must be in (0,100], got ");
                s.append(r.text.as_str());
                s
            },
            TransformError::Gas(r) => {
                let mut s = String::from_str("sensor.data.gas_ohm must be > 0, got ");
                s.append(r.text.as_str());
                s
            },
            TransformError::Pressure(r) => {
                let mut s = String::from_str(
                    "sensor.data.pressure_hpa out of transform-safe range [300,1200], got ",
                );
                s.append(r.text.as_str());
                s
            },
            TransformError::NonFinite(key) => {
                let mut s = String::from_str("cannot store non-finite float in field ");
                s.append(key);
                s
            },
        }
    }
}

/// What a sensor measured.
#[derive(Debug)]
pub struct SensorInputs {
    pub temp_c: Reading,
    pub rel_hum_perc: Reading,
    pub pressure_hpa: Reading,
    pub gas_ohm: Reading,
    pub altitude_m: Reading,
}

/// Whether this reading is that of the member of the data with this key.
pub open spec fn reading_of(reading: Reading, data: JsonNode, key: Seq<char>) -> bool {
    data.member_double(key) == Some(reading.bits) && reading.text@ == double_text(reading.bits)
}

impl SensorInputs {
    /// Whether these are the readings in the data of a message.
    pub open spec fn are_of(&self, data: JsonNode) -> bool {
        &&& reading_of(self.temp_c, data, "temp_c"@)
        &&& reading_of(self.rel_hum_perc, data, "rel_hum_perc"@)
        &&& reading_of(self.pressure_hpa, data, "pressure_hpa"@)
        &&& reading_of(self.gas_ohm, data, "gas_ohm"@)
        &&& reading_of(self.altitude_m, data, "altitude_m"@)
    }
}

/// What is put into the data of a sensor. A number is `None` if it is not
/// finite.
#[derive(Debug)]
pub struct SensorDerived {
    pub dew_point_c: Option<Number>,
    pub heat_index_c: Option<Number>,
    pub iaq_score: Option<Number>,
    /// The bit pattern of the index that the sentence on the quality of the air
    /// goes by: five times what the score lacks of 100.
    pub iaq_index: u64,
    pub pressure_hpa: Option<Number>,
    pub altitude_m: Option<Number>,
}

/// The data with a number put in.
pub open spec fn with_number(data: JsonNode, key: Seq<char>, number: Number) -> JsonNode {
    data.with_member(key, number_node(number))
}

/// The data of a sensor with what was derived put in, up to the first number
/// that is not finite, and the key of that number.
pub open spec fn derived_data(data: JsonNode, derived: SensorDerived) -> (
    JsonNode,
    Option<Seq<char>>,
) {
    if derived.dew_point_c is None {
        (data, Some("dew_point_c"@))
    } else {
        let a = with_number(data, "dew_point_c"@, derived.dew_point_c->0);
        if derived.heat_index_c is None {
            (a, Some("heat_index_c"@))
        } else {
            let b = with_number(a, "heat_index_c"@, derived.heat_index_c->0);
            if derived.iaq_score is None {
                (b, Some("iaq_score"@))
            } else {
                let c = with_number(b, "iaq_score"@, derived.iaq_score->0);
                let d = c.with_member(
                    "iaq_text"@,
                    JsonNode::Text("Air quality is "@ + air_quality(derived.iaq_index)),
                );
                if derived.pressure_hpa is None {
                    (d, Some("pressure_hpa"@))
                } else {
                    let e = with_number(d, "pressure_hpa"@, derived.pressure_hpa->0);
                    if derived.altitude_m is None {
                        (e, Some("altitude_m"@))
                    } else {
                        (with_number(e, "altitude_m"@, derived.altitude_m->0), None)
                    }
                }
            }
        }
    }
}

/// How the transformation goes on.
#[derive(Debug)]
pub enum TransformStep {
    /// It ended, with this label for the metrics.
    Stopped(&'static str),
    /// The numbers that depend on these are to be derived.
    Derive(SensorInputs),
    /// The message is to be read into this kind.
    Read(MessageType),
}

/// The stage that brings a message into its canonical form.
pub struct TransformStage {
    router: Arc<Router>,
}

fn trim_root_string(payload: &mut Value, key: &str)
    ensures
        json_node(*final(payload)) == trim_member(json_node(*old(payload)), key@),
{
    let trimmed = match json::get(payload, key) {
        Some(member) => match json::as_str(member) {
            Some(s) => Some(text::trim(s, CharClass::Whitespace)),
            None => None,
        },
        None => None,
    };
    if let Some(s) = trimmed {
        json::insert(payload, key, json::text_value(s));
    }
}

fn ensure_i64(payload: &mut Value, key: &str, default: i64)
    ensures
        json_node(*final(payload)) == default_member(
            json_node(*old(payload)),
            key@,
            integer_node(default),
        ),
{
    if json::get(payload, key).is_none() {
        json::insert(payload, key, json::integer_value(default));
    }
}

fn ensure_string(payload: &mut Value, key: &str, default: &str)
    ensures
        json_node(*final(payload)) == default_member(
            json_node(*old(payload)),
            key@,
            JsonNode::Text(default@),
        ),
{
    if json::get(payload, key).is_none() {
        json::insert(payload, key, json::text_value(String::from_str(default)));
    }
}

fn required_reading(data: &Value, key: &'static str) -> (r: Result<Reading, TransformError>)
    ensures
        match r {
            Ok(reading) => reading_of(reading, json_node(*data), key@),
            Err(e) => json_node(*data).member_double(key@) is None && (
            e matches TransformError::FieldMissing(k) && k@ == key@),
        },
{
    match json::get(data, key) {
        Some(member) => match json::as_reading(member) {
            Some(reading) => Ok(reading),
            None => Err(TransformError::FieldMissing(key)),
        },
        None => Err(TransformError::FieldMissing(key)),
    }
}

fn set_number(data: &mut Value, key: &'static str, number: Option<Number>) -> (r: Result<
    (),
    TransformError,
>)
    ensures
        match number {
            Some(n) => r is Ok && json_node(*final(data)) == with_number(
                json_node(*old(data)),
                key@,
                n,
            ),
            None => json_node(*final(data)) == json_node(*old(data)) && (r matches Err(
                TransformError::NonFinite(k),
            ) && k@ == key@),
        },
{
    match number {
        Some(n) => {
            json::insert(data, key, json::number_value(n));
            Ok(())
        },
        None => Err(TransformError::NonFinite(key)),
    }
}

/// Reads the numbers in the data of a sensor, and holds them against their
/// ranges.
fn sensor_inputs(data: &Value) -> (r: Result<SensorInputs, TransformError>)
    requires
        json_node(*data) is Object,
    ensures
        forall|message: JsonNode|
            message.member("data"@) == Some(json_node(*data)) ==> match #[trigger] sensor_fault(
                message,
            ) {
                Some(fault) => r matches Err(e) && e.is_fault(fault),
                None => r is Ok,
            },
        r matches Ok(inputs) ==> inputs.are_of(json_node(*data)),
{
    let temp_c = match required_reading(data, "temp_c") {
        Ok(reading) => reading,
        Err(e) => {
            return Err(e);
        },
    };
    let rel_hum_perc = match required_reading(data, "rel_hum_perc") {
        Ok(reading) => reading,
        Err(e) => {
            return Err(e);
        },
    };
    let pressure_hpa = match required_reading(data, "pressure_hpa") {
        Ok(reading) => reading,
        Err(e) => {
            return Err(e);
        },
    };
    let gas_ohm = match required_reading(data, "gas_ohm") {
        Ok(reading) => reading,
        Err(e) => {
            return Err(e);
        },
    };
    let altitude_m = match required_reading(data, "altitude_m") {
        Ok(reading) => reading,
        Err(e) => {
            return Err(e);
        },
    };
    if !(0 < rel_hum_perc.bits && rel_hum_perc.bits <= HUNDRED_BITS) {
        return Err(TransformError::Humidity(rel_hum_perc));
    }
    if !(0 < gas_ohm.bits && gas_ohm.bits < SIGN_BIT) {
        return Err(TransformError::Gas(gas_ohm));
    }
    if !(THREE_HUNDRED_BITS <= pressure_hpa.bits && pressure_hpa.bits <= TWELVE_HUNDRED_BITS) {
        return Err(TransformError::Pressure(pressure_hpa));
    }
    Ok(SensorInputs { temp_c, rel_hum_perc, pressure_hpa, gas_ohm, altitude_m })
}

/// Puts what was derived into the data of a sensor.
fn store_in_data(data: &mut Value, derived: SensorDerived) -> (r: Result<(), TransformError>)
    ensures
        json_node(*final(data)) == derived_data(json_node(*old(data)), derived).0,
        match derived_data(json_node(*old(data)), derived).1 {
            Some(key) => r matches Err(TransformError::NonFinite(k)) && k@ == key,
            None => r is Ok,
        },
{
    match set_number(data, "dew_point_c", derived.dew_point_c) {
        Ok(()) => {},
        Err(e) => {
            return Err(e);
        },
    }
    match set_number(data, "heat_index_c", derived.heat_index_c) {
        Ok(()) => {},
        Err(e) => {
            return Err(e);
        },
    }
    match set_number(data, "iaq_score", derived.iaq_score) {
        Ok(()) => {},
        Err(e) => {
            return Err(e);
        },
    }
    let iaq_text = TransformStage::calc_iaq_text(derived.iaq_index);
    json::insert(data, "iaq_text", json::text_value(iaq_text));
    match set_number(data, "pressure_hpa", derived.pressure_hpa) {
        Ok(()) => {},
        Err(e) => {
            return Err(e);
        },
    }
    set_number(data, "altitude_m", derived.altitude_m)
}

impl TransformStage {
    pub closed spec fn spec_router(&self) -> Router {
        *self.router
    }

    pub fn new(router: Arc<Router>) -> (stage: Self)
        ensures
            stage.spec_router() == *router,
    {
        TransformStage { router }
    }

    pub fn name(&self) -> (s: &'static str)
        ensures
            s@ == "transform"@,
    {
        "transform"
    }

    /// The first half of the transformation of a message of a sensor: trims its
    /// texts, and reads its numbers and holds them against their ranges.
    pub fn read_sensor_payload(payload: &mut Value) -> (r: Result<SensorInputs, TransformError>)
        ensures
            json_node(*final(payload)) == trimmed_sensor(json_node(*old(payload))),
            match sensor_fault(json_node(*final(payload))) {
                Some(fault) => r matches Err(e) && e.is_fault(fault),
                None => r matches Ok(inputs) && inputs.are_of(
                    json_node(*final(payload)).member("data"@)->0,
                ),
            },
    {
        trim_root_string(payload, "device_id");
        trim_root_string(payload, "room");
        trim_root_string(payload, "device_class");
        trim_root_string(payload, "fw_version");
        trim_root_string(payload, "time_iso");
        match json::get(payload, "data") {
            Some(data) => {
                if !json::is_object(data) {
                    return Err(TransformError::DataMissing);
                }
                sensor_inputs(data)
            },
            None => Err(TransformError::DataMissing),
        }
    }

    /// The sentence on the quality of the air. `index` is the bit pattern of the
    /// index that the sentence goes by: five times what the score lacks of 100.
    pub fn calc_iaq_text(index: u64) -> (s: String)
        ensures
            s@ == "Air quality is "@ + air_quality(index),
    {
        let suffix = if index > INFINITY_BITS {
            "Good"
        } else if index >= 0x4072d00000000000 {
            "Hazardous"
        } else if index >= 0x4069200000000000 {
            "Very Unhealthy"
        } else if index >= 0x4066000000000000 {
            "Unhealthy"
        } else if index >= 0x4062e00000000000 {
            "Unhealthy for Sensitive Groups"
        } else if index >= 0x4049800000000000 {
            "Moderate"
        } else {
            "Good"
        };
        let mut s = String::from_str("Air quality is ");
        s.append(suffix);
        s
    }

    /// The second half of the transformation of a message of a sensor: puts in
    /// what was derived from its numbers.
    pub fn store_sensor_payload(payload: &mut Value, derived: SensorDerived) -> (r: Result<
        (),
        TransformError,
    >)
        ensures
            match json_node(*old(payload)).member("data"@) {
                Some(data) => if data is Object {
                    &&& json_node(*final(payload)) == json_node(*old(payload)).with_member(
                        "data"@,
                        derived_data(data, derived).0,
                    )
                    &&& match derived_data(data, derived).1 {
                        Some(key) => r matches Err(TransformError::NonFinite(k)) && k@ == key,
                        None => r is Ok,
                    }
                } else {
                    &&& r matches Err(TransformError::DataMissing)
                    &&& json_node(*final(payload)) == json_node(*old(payload))
                },
                None => {
                    &&& r matches Err(TransformError::DataMissing)
                    &&& json_node(*final(payload)) == json_node(*old(payload))
                },
            },
    {
        match json::get(payload, "data") {
            Some(data) => {
                if !json::is_object(data) {
                    return Err(TransformError::DataMissing);
                }
            },
            None => {
                return Err(TransformError::DataMissing);
            },
        }
        match json::get_mut(payload, "data") {
            Some(data) => store_in_data(data, derived),
            None => Err(TransformError::DataMissing),
        }
    }

    /// Brings a message on the state of a device into its canonical form.
    pub fn transform_status_payload(payload: &mut Value)
        ensures
            json_node(*final(payload)) == canonical_status(json_node(*old(payload))),
    {
        trim_root_string(payload, "device_id");
        trim_root_string(payload, "device_class");
        trim_root_string(payload, "fw_version");
        trim_root_string(payload, "ip");
        trim_root_string(payload, "time_iso");
        trim_root_string(payload, "ssid");
        ensure_i64(payload, "uptime", 0);
        ensure_i64(payload, "free_mem", 0);
        ensure_string(payload, "ssid", "");
    }

    /// Starts the transformation of a message. One that no route takes is
    /// ignored; one of a sensor whose data is at fault is marked for the
    /// dead-letter queue. It fails if the payload was not decoded.
    pub fn begin(&self, ctx: &mut PipelineContext) -> (r: Result<TransformStep, ContextError>)
        ensures
            match self.spec_router().route_of(old(ctx)@.topic) {
                None => {
                    &&& final(ctx)@ == old(ctx)@.marked_ignored("no matching route"@)
                    &&& r matches Ok(TransformStep::Stopped(label)) && label@ == "ignored"@
                },
                Some(route) => match old(ctx)@.payload_json {
                    None => r matches Err(ContextError::PayloadJson) && final(ctx)@ == old(ctx)@,
                    Some(node) => match route.kind() {
                        MessageType::Status => {
                            &&& final(ctx)@ == (ContextView {
                                payload_json: Some(canonical_status(node)),
                                ..old(ctx)@
                            })
                            &&& r matches Ok(TransformStep::Read(kind)) && kind is Status
                        },
                        MessageType::Sensor => sensor_begun(
                            old(ctx)@,
                            trimmed_sensor(node),
                            final(ctx)@,
                            r,
                        ),
                    },
                },
            },
    {
        let message_type = match self.router.message_type_for_topic(ctx.topic()) {
            Some(message_type) => message_type,
            None => {
                ctx.mark_ignored("no matching route");
                return Ok(TransformStep::Stopped("ignored"));
            },
        };
        let payload = match ctx.payload_json_mut() {
            Ok(payload) => payload,
            Err(e) => {
                return Err(e);
            },
        };
        match message_type {
            MessageType::Status => {
                TransformStage::transform_status_payload(payload);
                Ok(TransformStep::Read(MessageType::Status))
            },
            MessageType::Sensor => match TransformStage::read_sensor_payload(payload) {
                Ok(inputs) => Ok(TransformStep::Derive(inputs)),
                Err(e) => {
                    TransformStage::fail(ctx, &e);
                    Ok(TransformStep::Stopped("failed"))
                },
            },
        }
    }

    /// Marks a message that cannot be transformed.
    fn fail(ctx: &mut PipelineContext, error: &TransformError)
        ensures
            final(ctx)@ == old(ctx)@.marked_dlq("transform failed: "@ + error.text()),
    {
        let mut reason = String::from_str("transform failed: ");
        reason.append(error.message().as_str());
        ctx.mark_dlq(reason.as_str());
    }

    /// Goes on with a message of a sensor when the numbers were derived.
    pub fn derived(&self, ctx: &mut PipelineContext, derived: SensorDerived) -> (r: Result<
        TransformStep,
        ContextError,
    >)
        ensures
            match old(ctx)@.payload_json {
                None => r matches Err(ContextError::PayloadJson) && final(ctx)@ == old(ctx)@,
                Some(node) => match node.member("data"@) {
                    Some(data) => if data is Object {
                        let (stored, missing) = derived_data(data, derived);
                        let after = ContextView {
                            payload_json: Some(node.with_member("data"@, stored)),
                            ..old(ctx)@
                        };
                        match missing {
                            None => {
                                &&& final(ctx)@ == after
                                &&& r matches Ok(TransformStep::Read(kind)) && kind is Sensor
                            },
                            Some(key) => {
                                &&& final(ctx)@ == after.marked_dlq(
                                    "transform failed: "@ + (
                                    "cannot store non-finite float in field "@ + key),
                                )
                                &&& r matches Ok(TransformStep::Stopped(label)) && label@
                                    == "failed"@
                            },
                        }
                    } else {
                        no_data(old(ctx)@, final(ctx)@, r)
                    },
                    None => no_data(old(ctx)@, final(ctx)@, r),
                },
            },
    {
        let payload = match ctx.payload_json_mut() {
            Ok(payload) => payload,
            Err(e) => {
                return Err(e);
            },
        };
        match TransformStage::store_sensor_payload(payload, derived) {
            Ok(()) => Ok(TransformStep::Read(MessageType::Sensor)),
            Err(e) => {
                TransformStage::fail(ctx, &e);
                Ok(TransformStep::Stopped("failed"))
            },
        }
    }

    /// Ends the transformation: the message was read into its canonical form,
    /// which is that of the route of its topic, or could not be, for this reason.
    pub fn finish(&self, ctx: &mut PipelineContext, read: Result<HandledMessage, String>) -> (r: (
        StageFlow,
        &'static str,
    ))
        requires
            read matches Ok(msg) ==> self.spec_router().takes_kind(
                old(ctx)@.topic,
                msg.spec_kind(),
            ),
        ensures
            match read {
                Ok(msg) => {
                    &&& final(ctx)@ == (ContextView { handled_message: Some(msg), ..old(ctx)@ })
                    &&& r.0 is Continue
                    &&& r.1@ == "success"@
                },
                Err(cause) => {
                    &&& final(ctx)@ == old(ctx)@.marked_dlq(
                        "post-transform deserialization failed: "@ + cause@,
                    )
                    &&& r.0 is Stop
                    &&& r.1@ == "failed"@
                },
            },
    {
        match read {
            Ok(msg) => {
                ctx.set_handled_message(msg);
                (StageFlow::Continue, "success")
            },
            Err(cause) => {
                let mut reason = String::from_str("post-transform deserialization failed: ");
                reason.append(cause.as_str());
                ctx.mark_dlq(reason.as_str());
                (StageFlow::Stop, "failed")
            },
        }
    }
}

/// What [`TransformStage::begin`] makes of a message of a sensor, which is this
/// once its texts are trimmed.
pub open spec fn sensor_begun(
    before: ContextView,
    message: JsonNode,
    after: ContextView,
    r: Result<TransformStep, ContextError>,
) -> bool {
    let trimmed = ContextView { payload_json: Some(message), ..before };
    match sensor_fault(message) {
        None => {
            &&& after == trimmed
            &&& r matches Ok(TransformStep::Derive(inputs)) && inputs.are_of(
                message.member("data"@)->0,
            )
        },
        Some(fault) => {
            &&& r matches Ok(TransformStep::Stopped(label)) && label@ == "failed"@
            &&& exists|e: TransformError| #[trigger]
                e.is_fault(fault) && after == trimmed.marked_dlq("transform failed: "@ + e.text())
        },
    }
}

/// What becomes of a message of a sensor without data.
pub open spec fn no_data(
    before: ContextView,
    after: ContextView,
    r: Result<TransformStep, ContextError>,
) -> bool {
    &&& after == before.marked_dlq(
        "transform failed: "@ + "sensor.data missing or not an object"@,
    )
    &&& r matches Ok(TransformStep::Stopped(label)) && label@ == "failed"@
}

/// Whether the member with this key, if it is a text, has no white space around
/// it.
spec fn is_trim(node: JsonNode, key: Seq<char>) -> bool {
    node.member_text(key) matches Some(s) ==> text::trimmed(s) == s
}

/// Trimming a member twice is trimming it once, and it leaves the other members
/// as they are.
proof fn lemma_trim_member(node: JsonNode, key: Seq<char>)
    ensures
        is_trim(trim_member(node, key), key),
        forall|k: Seq<char>|
            #![trigger trim_member(node, key).member(k)]
            k != key ==> trim_member(node, key).member(k) == node.member(k),
        is_trim(node, key) ==> trim_member(node, key) == node,
        trim_member(node, key) is Object == node is Object,
{
    if let Some(s) = node.member_text(key) {
        text::law_trim_idempotent(s, CharClass::Whitespace);
        if text::trimmed(s) == s {
            assert(node->Object_0.insert(key, JsonNode::Text(s)) =~= node->Object_0);
        }
    }
}

/// Putting in a member that a message has changes nothing, and it leaves the
/// other members as they are.
proof fn lemma_default_member(node: JsonNode, key: Seq<char>, value: JsonNode)
    ensures
        forall|k: Seq<char>|
            #![trigger default_member(node, key, value).member(k)]
            k != key ==> default_member(node, key, value).member(k) == node.member(k),
        node is Object ==> default_member(node, key, value).member(key) is Some,
        node is Object && node.member(key) is None ==> default_member(node, key, value).member(key)
            == Some(value),
        !(node is Object) ==> default_member(node, key, value) == node,
        default_member(node, key, value) is Object == node is Object,
{
}

/// Tells the keys of a message apart.
proof fn lemma_keys_differ()
    ensures
        "device_id"@.len() == 9,
        "room"@.len() == 4,
        "device_class"@.len() == 12,
        "fw_version"@.len() == 10,
        "time_iso"@.len() == 8,
        "ip"@.len() == 2,
        "ssid"@.len() == 4,
        "room"@[0] != "ssid"@[0],
        "uptime"@.len() == 6,
        "free_mem"@.len() == 8,
        "free_mem"@[0] != "time_iso"@[0],
        ""@.len() == 0,
{
    reveal_strlit("device_id");
    reveal_strlit("room");
    reveal_strlit("device_class");
    reveal_strlit("fw_version");
    reveal_strlit("time_iso");
    reveal_strlit("ip");
    reveal_strlit("ssid");
    reveal_strlit("uptime");
    reveal_strlit("free_mem");
    reveal_strlit("");
}

/// Trimming the texts of a message of a sensor twice is trimming them once.
pub proof fn law_sensor_texts_are_trimmed_once(node: JsonNode)
    ensures
        trimmed_sensor(trimmed_sensor(node)) == trimmed_sensor(node),
{
    lemma_keys_differ();
    let a = trim_member(node, "device_id"@);
    let b = trim_member(a, "room"@);
    let c = trim_member(b, "device_class"@);
    let d = trim_member(c, "fw_version"@);
    let e = trim_member(d, "time_iso"@);
    lemma_trim_member(node, "device_id"@);
    lemma_trim_member(a, "room"@);
    lemma_trim_member(b, "device_class"@);
    lemma_trim_member(c, "fw_version"@);
    lemma_trim_member(d, "time_iso"@);
    assert(e.member("device_id"@) == a.member("device_id"@));
    assert(e.member("room"@) == b.member("room"@));
    assert(e.member("device_class"@) == c.member("device_class"@));
    assert(e.member("fw_version"@) == d.member("fw_version"@));
    lemma_trim_member(e, "device_id"@);
    lemma_trim_member(e, "room"@);
    lemma_trim_member(e, "device_class"@);
    lemma_trim_member(e, "fw_version"@);
    lemma_trim_member(e, "time_iso"@);
}

/// Of a message on the state of a device, the texts of the canonical form are
/// trimmed, and the form has what the message may leave out.
proof fn lemma_canonical_status(node: JsonNode)
    ensures
        is_trim(canonical_status(node), "device_id"@),
        is_trim(canonical_status(node), "device_class"@),
        is_trim(canonical_status(node), "fw_version"@),
        is_trim(canonical_status(node), "ip"@),
        is_trim(canonical_status(node), "time_iso"@),
        is_trim(canonical_status(node), "ssid"@),
        canonical_status(node) is Object == node is Object,
        node is Object ==> {
            &&& canonical_status(node).member("uptime"@) is Some
            &&& canonical_status(node).member("free_mem"@) is Some
            &&& canonical_status(node).member("ssid"@) is Some
            &&& node.member("uptime"@) is None ==> canonical_status(node).member("uptime"@) == Some(
                integer_node(0),
            )
            &&& node.member("free_mem"@) is None ==> canonical_status(node).member("free_mem"@)
                == Some(integer_node(0))
            &&& node.member("ssid"@) is None ==> canonical_status(node).member("ssid"@) == Some(
                JsonNode::Text(""@),
            )
        },
{
    lemma_keys_differ();
    let a = trim_member(node, "device_id"@);
    let b = trim_member(a, "device_class"@);
    let c = trim_member(b, "fw_version"@);
    let d = trim_member(c, "ip"@);
    let e = trim_member(d, "time_iso"@);
    let f = trim_member(e, "ssid"@);
    let g = default_member(f, "uptime"@, integer_node(0));
    let h = default_member(g, "free_mem"@, integer_node(0));
    let i = default_member(h, "ssid"@, JsonNode::Text(""@));
    lemma_trim_member(node, "device_id"@);
    lemma_trim_member(a, "device_class"@);
    lemma_trim_member(b, "fw_version"@);
    lemma_trim_member(c, "ip"@);
    lemma_trim_member(d, "time_iso"@);
    lemma_trim_member(e, "ssid"@);
    lemma_default_member(f, "uptime"@, integer_node(0));
    lemma_default_member(g, "free_mem"@, integer_node(0));
    lemma_default_member(h, "ssid"@, JsonNode::Text(""@));
    assert(i.member("device_id"@) == a.member("device_id"@));
    assert(i.member("device_class"@) == b.member("device_class"@));
    assert(i.member("fw_version"@) == c.member("fw_version"@));
    assert(i.member("ip"@) == d.member("ip"@));
    assert(i.member("time_iso"@) == e.member("time_iso"@));
    assert(h.member("ssid"@) == f.member("ssid"@));
    assert(e.member("ssid"@) == node.member("ssid"@));
    assert(f.member("uptime"@) == node.member("uptime"@));
    assert(i.member("uptime"@) == g.member("uptime"@));
    assert(g.member("free_mem"@) == node.member("free_mem"@));
    assert(i.member("free_mem"@) == h.member("free_mem"@));
    assert(text::trimmed(""@) =~= ""@);
}

/// Bringing a message on the state of a device into its canonical form twice is
/// doing so once.
pub proof fn law_status_is_made_canonical_once(node: JsonNode)
    ensures
        canonical_status(canonical_status(node)) == canonical_status(node),
{
    let c = canonical_status(node);
    lemma_canonical_status(node);
    lemma_trim_member(c, "device_id"@);
    lemma_trim_member(c, "device_class"@);
    lemma_trim_member(c, "fw_version"@);
    lemma_trim_member(c, "ip"@);
    lemma_trim_member(c, "time_iso"@);
    lemma_trim_member(c, "ssid"@);
    assert(trimmed_status(c) == c);
}

/// The canonical form of a message on the state of a device has what the
/// message may leave out, at its default if the message left it out.
pub proof fn law_canonical_status_is_complete(node: JsonNode)
    requires
        node is Object,
    ensures
        canonical_status(node).member("uptime"@) == (match node.member("uptime"@) {
            Some(value) => Some(value),
            None => Some(integer_node(0)),
        }),
        canonical_status(node).member("free_mem"@) == (match node.member("free_mem"@) {
            Some(value) => Some(value),
            None => Some(integer_node(0)),
        }),
        canonical_status(node).member("ssid"@) == (match node.member("ssid"@) {
            Some(JsonNode::Text(s)) => Some(JsonNode::Text(text::trimmed(s))),
            Some(value) => Some(value),
            None => Some(JsonNode::Text(""@)),
        }),
{
    lemma_canonical_status(node);
    lemma_keys_differ();
}

/// What was derived for a key is what the data holds under that key, the sentence
/// is that of the index, and every other member of the data stays as it was.
pub proof fn law_derived_numbers_stand_under_their_keys(
    data: JsonNode,
    derived: SensorDerived,
    key: Seq<char>,
)
    requires
        data is Object,
        derived.dew_point_c is Some,
        derived.heat_index_c is Some,
        derived.iaq_score is Some,
        derived.pressure_hpa is Some,
        derived.altitude_m is Some,
    ensures
        ({
            let after = derived_data(data, derived).0;
            &&& derived_data(data, derived).1 is None
            &&& after.member("dew_point_c"@) == Some(number_node(derived.dew_point_c->0))
            &&& after.member("heat_index_c"@) == Some(number_node(derived.heat_index_c->0))
            &&& after.member("iaq_score"@) == Some(number_node(derived.iaq_score->0))
            &&& after.member("pressure_hpa"@) == Some(number_node(derived.pressure_hpa->0))
            &&& after.member("altitude_m"@) == Some(number_node(derived.altitude_m->0))
            &&& after.member_text("iaq_text"@) == Some(
                "Air quality is "@ + air_quality(derived.iaq_index),
            )
            &&& key != "dew_point_c"@ && key != "heat_index_c"@ && key != "iaq_score"@ && key
                != "pressure_hpa"@ && key != "altitude_m"@ && key != "iaq_text"@
                ==> after.member(key) == data.member(key)
        }),
{
    lemma_data_keys_differ();
}

/// Where a derived number is not finite, the transformation fails on the first
/// such number, and no other number is put under its key.
pub proof fn law_numbers_that_are_not_finite_are_not_stored(data: JsonNode, derived: SensorDerived)
    requires
        data is Object,
    ensures
        ({
            let (after, missing) = derived_data(data, derived);
            &&& missing is None <==> derived.dew_point_c is Some && derived.heat_index_c is Some
                && derived.iaq_score is Some && derived.pressure_hpa is Some
                && derived.altitude_m is Some
            &&& missing == Some("dew_point_c"@) ==> derived.dew_point_c is None
            &&& missing == Some("heat_index_c"@) ==> derived.heat_index_c is None
            &&& missing == Some("iaq_score"@) ==> derived.iaq_score is None
            &&& missing == Some("pressure_hpa"@) ==> derived.pressure_hpa is None
            &&& missing == Some("altitude_m"@) ==> derived.altitude_m is None
            &&& missing matches Some(key) ==> after.member(key) == data.member(key)
        }),
{
    lemma_data_keys_differ();
}

/// Tells the keys of the data of a sensor apart.
proof fn lemma_data_keys_differ()
    ensures
        "dew_point_c"@.len() == 11,
        "heat_index_c"@.len() == 12,
        "iaq_score"@.len() == 9,
        "iaq_text"@.len() == 8,
        "pressure_hpa"@.len() == 12,
        "altitude_m"@.len() == 10,
        "heat_index_c"@[0] != "pressure_hpa"@[0],
{
    reveal_strlit("dew_point_c");
    reveal_strlit("heat_index_c");
    reveal_strlit("iaq_score");
    reveal_strlit("iaq_text");
    reveal_strlit("pressure_hpa");
    reveal_strlit("altitude_m");
}

/// What a double with the sign bit off and this bit pattern is, in units of two to
/// the power of -1074: every finite one is a whole number of them.
pub open spec fn double_units(bits: u64) -> nat {
    let exponent = bits as nat / 0x10_0000_0000_0000;
    let fraction = bits as nat % 0x10_0000_0000_0000;
    if exponent == 0 {
        fraction
    } else {
        (0x10_0000_0000_0000 + fraction) * pow2((exponent - 1) as nat)
    }
}

/// How many units make one.
pub open spec fn one_in_units() -> nat {
    pow2(1074)
}

/// Of the finite numbers, a humidity is in range if it is over 0 and at most 100,
/// a pressure if it is between 300 and 1200, and a gas resistance if it is over 0.
/// No number below zero is in range.
pub proof fn law_ranges_are_those_of_the_numbers(bits: u64)
    ensures
        bits < INFINITY_BITS ==> {
            let value = double_units(bits);
            &&& humidity_in_range(bits) <==> 0 < value <= 100 * one_in_units()
            &&& pressure_in_range(bits) <==> 300 * one_in_units() <= value <= 1200 * one_in_units()
            &&& positive(bits) <==> 0 < value
        },
        bits >= SIGN_BIT ==> !humidity_in_range(bits) && !pressure_in_range(bits) && !positive(
            bits,
        ),
{
    lemma_bounds_in_units();
    lemma_units_grow(0, bits);
    lemma_units_grow(bits, HUNDRED_BITS);
    lemma_units_grow(HUNDRED_BITS, bits);
    lemma_units_grow(bits, THREE_HUNDRED_BITS);
    lemma_units_grow(THREE_HUNDRED_BITS, bits);
    lemma_units_grow(bits, TWELVE_HUNDRED_BITS);
    lemma_units_grow(TWELVE_HUNDRED_BITS, bits);
}

/// The air is good up to an index below 51, and it is moderate from there on,
/// unhealthy for sensitive groups from 151, unhealthy from 176, very unhealthy
/// from 201 and hazardous from 301.
pub proof fn law_air_quality_goes_by_the_index(index: u64)
    requires
        index <= INFINITY_BITS,
    ensures
        ({
            let value = double_units(index);
            let one = one_in_units();
            air_quality(index) == (if value < 51 * one {
                "Good"@
            } else if value < 151 * one {
                "Moderate"@
            } else if value < 176 * one {
                "Unhealthy for Sensitive Groups"@
            } else if value < 201 * one {
                "Unhealthy"@
            } else if value < 301 * one {
                "Very Unhealthy"@
            } else {
                "Hazardous"@
            })
        }),
{
    lemma_bounds_in_units();
    lemma_units_grow(index, 0x4072d00000000000);
    lemma_units_grow(0x4072d00000000000, index);
    lemma_units_grow(index, 0x4069200000000000);
    lemma_units_grow(0x4069200000000000, index);
    lemma_units_grow(index, 0x4066000000000000);
    lemma_units_grow(0x4066000000000000, index);
    lemma_units_grow(index, 0x4062e00000000000);
    lemma_units_grow(0x4062e00000000000, index);
    lemma_units_grow(index, 0x4049800000000000);
    lemma_units_grow(0x4049800000000000, index);
}

/// The air is as good as can be at an index below zero.
pub proof fn law_air_is_good_below_zero(index: u64)
    requires
        index >= SIGN_BIT,
    ensures
        air_quality(index) == "Good"@,
{
}

/// A greater bit pattern is that of a greater number.
proof fn lemma_units_grow(a: u64, b: u64)
    ensures
        a < b < SIGN_BIT ==> double_units(a) < double_units(b),
{
    if a < b < SIGN_BIT {
        let x = a as nat / 0x10_0000_0000_0000;
        let y = b as nat / 0x10_0000_0000_0000;
        let m = a as nat % 0x10_0000_0000_0000;
        let n = b as nat % 0x10_0000_0000_0000;
        if y > 0 {
            let q = pow2((y - 1) as nat);
            lemma_pow2_pos((y - 1) as nat);
            assert((0x10_0000_0000_0000 + n) * q >= 0x10_0000_0000_0000 * q) by (nonlinear_arith)
                requires
                    q > 0,
            ;
            if x == y {
                assert((0x10_0000_0000_0000 + m) * q < (0x10_0000_0000_0000 + n) * q)
                    by (nonlinear_arith)
                    requires
                        q > 0,
                        m < n,
                ;
            } else if x > 0 {
                let p = pow2((x - 1) as nat);
                lemma_pow2_pos((x - 1) as nat);
                assert((0x10_0000_0000_0000 + m) * p < 0x10_0000_0000_0000 * (2 * p))
                    by (nonlinear_arith)
                    requires
                        p > 0,
                        m < 0x10_0000_0000_0000,
                ;
                lemma_pow2_unfold(x);
                if x < y - 1 {
                    lemma_pow2_strictly_increases(x, (y - 1) as nat);
                }
                assert(2 * p <= q);
            }
        }
    }
}

/// A bit pattern whose fraction is the fraction of a whole number.
proof fn lemma_whole_number_in_units(bits: u64, value: nat, shift: nat)
    requires
        0 < bits as nat / 0x10_0000_0000_0000,
        bits as nat / 0x10_0000_0000_0000 + shift == 1075,
        0x10_0000_0000_0000 + bits as nat % 0x10_0000_0000_0000 == value * pow2(shift),
    ensures
        double_units(bits) == value * one_in_units(),
{
    let rest = (bits as nat / 0x10_0000_0000_0000 - 1) as nat;
    lemma_pow2_adds(shift, rest);
    let a = pow2(shift);
    let b = pow2(rest);
    assert(value * a * b == value * (a * b)) by (nonlinear_arith);
}

/// The bounds of the ranges.
proof fn lemma_bounds_in_units()
    ensures
        double_units(HUNDRED_BITS) == 100 * one_in_units(),
        double_units(THREE_HUNDRED_BITS) == 300 * one_in_units(),
        double_units(TWELVE_HUNDRED_BITS) == 1200 * one_in_units(),
        double_units(0x4072d00000000000) == 301 * one_in_units(),
        double_units(0x4069200000000000) == 201 * one_in_units(),
        double_units(0x4066000000000000) == 176 * one_in_units(),
        double_units(0x4062e00000000000) == 151 * one_in_units(),
        double_units(0x4049800000000000) == 51 * one_in_units(),
{
    lemma2_to64();
    lemma2_to64_rest();
    lemma_whole_number_in_units(HUNDRED_BITS, 100, 46);
    lemma_whole_number_in_units(THREE_HUNDRED_BITS, 300, 44);
    lemma_whole_number_in_units(TWELVE_HUNDRED_BITS, 1200, 42);
    lemma_whole_number_in_units(0x4072d00000000000, 301, 44);
    lemma_whole_number_in_units(0x4069200000000000, 201, 45);
    lemma_whole_number_in_units(0x4066000000000000, 176, 45);
    lemma_whole_number_in_units(0x4062e00000000000, 151, 45);
    lemma_whole_number_in_units(0x4049800000000000, 51, 47);
}

/// A text without the whitespace around it; anything else as it is.
pub open spec fn without_whitespace(member: Option<JsonNode>) -> Option<JsonNode> {
    match member {
        Some(JsonNode::Text(s)) => Some(JsonNode::Text(text::trimmed(s))),
        other => other,
    }
}

/// A message of a sensor loses the whitespace around its five texts, and nothing
/// else of it changes: not its data, nor any other member.
pub proof fn law_sensor_texts_lose_their_whitespace(node: JsonNode, key: Seq<char>)
    ensures
        ({
            let trims = key == "device_id"@ || key == "room"@ || key == "device_class"@ || key
                == "fw_version"@ || key == "time_iso"@;
            &&& trims ==> trimmed_sensor(node).member(key) == without_whitespace(node.member(key))
            &&& !trims ==> trimmed_sensor(node).member(key) == node.member(key)
        }),
        trimmed_sensor(node).member("data"@) == node.member("data"@),
{
    lemma_keys_differ();
    reveal_strlit("data");
    assert("data"@[0] != "room"@[0]) by {
        reveal_strlit("room");
    }
    let a = trim_member(node, "device_id"@);
    let b = trim_member(a, "room"@);
    let c = trim_member(b, "device_class"@);
    let d = trim_member(c, "fw_version"@);
    lemma_trimmed_text(node, "device_id"@);
    lemma_trimmed_text(a, "room"@);
    lemma_trimmed_text(b, "device_class"@);
    lemma_trimmed_text(c, "fw_version"@);
    lemma_trimmed_text(d, "time_iso"@);
}

/// A message on the state of a device loses the whitespace around its six texts,
/// gets a 0 for an uptime or a free memory that it lacks and an empty name for a
/// network that it lacks, and nothing else of it changes.
pub proof fn law_status_keeps_its_members(node: JsonNode, key: Seq<char>)
    requires
        node is Object,
    ensures
        ({
            let after = canonical_status(node);
            &&& key == "device_id"@ || key == "device_class"@ || key == "fw_version"@ || key
                == "ip"@ || key == "time_iso"@ ==> after.member(key) == without_whitespace(
                node.member(key),
            )
            &&& key == "ssid"@ ==> after.member(key) == (if node.member(key) is None {
                Some(JsonNode::Text(""@))
            } else {
                without_whitespace(node.member(key))
            })
            &&& key == "uptime"@ || key == "free_mem"@ ==> after.member(key) == (if node.member(
                key,
            ) is None {
                Some(integer_node(0))
            } else {
                node.member(key)
            })
            &&& key != "device_id"@ && key != "device_class"@ && key != "fw_version"@ && key
                != "ip"@ && key != "time_iso"@ && key != "ssid"@ && key != "uptime"@ && key
                != "free_mem"@ ==> after.member(key) == node.member(key)
        }),
{
    lemma_keys_differ();
    let a = trim_member(node, "device_id"@);
    let b = trim_member(a, "device_class"@);
    let c = trim_member(b, "fw_version"@);
    let d = trim_member(c, "ip"@);
    let e = trim_member(d, "time_iso"@);
    let f = trim_member(e, "ssid"@);
    lemma_trimmed_text(node, "device_id"@);
    lemma_trimmed_text(a, "device_class"@);
    lemma_trimmed_text(b, "fw_version"@);
    lemma_trimmed_text(c, "ip"@);
    lemma_trimmed_text(d, "time_iso"@);
    lemma_trimmed_text(e, "ssid"@);
    let g = default_member(f, "uptime"@, integer_node(0));
    let h = default_member(g, "free_mem"@, integer_node(0));
    lemma_default_member(f, "uptime"@, integer_node(0));
    lemma_default_member(g, "free_mem"@, integer_node(0));
    lemma_default_member(h, "ssid"@, JsonNode::Text(""@));
}

proof fn lemma_trimmed_text(node: JsonNode, key: Seq<char>)
    ensures
        trim_member(node, key).member(key) == without_whitespace(node.member(key)),
        forall|k: Seq<char>|
            #![trigger trim_member(node, key).member(k)]
            k != key ==> trim_member(node, key).member(k) == node.member(k),
        trim_member(node, key) is Object == node is Object,
{
    lemma_trim_member(node, key);
}

/// A message of a sensor has no fault if and only if its data are an object with
/// all five numbers, of which the humidity, the gas resistance and the pressure
/// are in range.
pub proof fn law_sound_sensors_have_no_fault(node: JsonNode)
    ensures
        sensor_fault(node) is None <==> {
            &&& node.member("data"@) matches Some(data)
            &&& data is Object
            &&& data.member_double("temp_c"@) is Some
            &&& data.member_double("altitude_m"@) is Some
            &&& data.member_double("rel_hum_perc"@) matches Some(humidity)
            &&& humidity_in_range(humidity)
            &&& data.member_double("gas_ohm"@) matches Some(gas)
            &&& positive(gas)
            &&& data.member_double("pressure_hpa"@) matches Some(pressure)
            &&& pressure_in_range(pressure)
        },
        sensor_fault(node) matches Some(SensorFault::FieldMissing(key)) ==> node.member(
            "data"@,
        )->0.member_double(key) is None,
        sensor_fault(node) matches Some(SensorFault::Humidity(bits)) ==> node.member(
            "data"@,
        )->0.member_double("rel_hum_perc"@) == Some(bits) && !humidity_in_range(bits),
        sensor_fault(node) matches Some(SensorFault::Gas(bits)) ==> node.member(
            "data"@,
        )->0.member_double("gas_ohm"@) == Some(bits) && !positive(bits),
        sensor_fault(node) matches Some(SensorFault::Pressure(bits)) ==> node.member(
            "data"@,
        )->0.member_double("pressure_hpa"@) == Some(bits) && !pressure_in_range(bits),
{
}

/// The numbers that others are derived from are those of the message, each from
/// its own member.
pub proof fn law_inputs_are_the_numbers_of_the_message(inputs: SensorInputs, data: JsonNode)
    requires
        inputs.are_of(data),
    ensures
        data.member_double("temp_c"@) == Some(inputs.temp_c.bits),
        data.member_double("rel_hum_perc"@) == Some(inputs.rel_hum_perc.bits),
        data.member_double("pressure_hpa"@) == Some(inputs.pressure_hpa.bits),
        data.member_double("gas_ohm"@) == Some(inputs.gas_ohm.bits),
        data.member_double("altitude_m"@) == Some(inputs.altitude_m.bits),
{
}

/// A message of a sensor is marked for the dead-letter queue if and only if it has
/// a fault; otherwise the numbers are derived. It is kept without whitespace
/// either way, with its topic and the payload that came in.
pub proof fn law_only_faulty_sensors_are_marked(
    before: ContextView,
    message: JsonNode,
    after: ContextView,
    r: Result<TransformStep, ContextError>,
)
    requires
        sensor_begun(before, message, after, r),
        before.dlq_reason is None,
    ensures
        after.dlq_reason is Some <==> sensor_fault(message) is Some,
        r matches Ok(TransformStep::Derive(_)) <==> sensor_fault(message) is None,
        r matches Ok(TransformStep::Stopped(_)) <==> sensor_fault(message) is Some,
        r matches Ok(TransformStep::Stopped(label)) ==> label@ == "failed"@,
        after.payload_json == Some(message),
        after.topic == before.topic,
        after.raw_payload == before.raw_payload,
        after.ignored_reason == before.ignored_reason,
{
}

/// What `store_sensor_payload` makes of a message with data: each number that was
/// derived stands in the data under its own name, and the message has otherwise
/// the members that it had.
pub proof fn law_stored_numbers_stand_under_their_names(
    payload: &mut Value,
    derived: SensorDerived,
    r: Result<(), TransformError>,
    data: JsonNode,
    key: Seq<char>,
)
    requires
        call_ensures(TransformStage::store_sensor_payload, (payload, derived), r),
        json_node(*payload).member("data"@) == Some(data),
        data is Object,
        derived.dew_point_c is Some,
        derived.heat_index_c is Some,
        derived.iaq_score is Some,
        derived.pressure_hpa is Some,
        derived.altitude_m is Some,
    ensures
        r is Ok,
        json_node(*final(payload)).member("data"@) matches Some(after) && {
            &&& after.member("dew_point_c"@) == Some(number_node(derived.dew_point_c->0))
            &&& after.member("heat_index_c"@) == Some(number_node(derived.heat_index_c->0))
            &&& after.member("iaq_score"@) == Some(number_node(derived.iaq_score->0))
            &&& after.member("pressure_hpa"@) == Some(number_node(derived.pressure_hpa->0))
            &&& after.member("altitude_m"@) == Some(number_node(derived.altitude_m->0))
            &&& after.member("temp_c"@) == data.member("temp_c"@)
            &&& after.member("rel_hum_perc"@) == data.member("rel_hum_perc"@)
            &&& after.member("gas_ohm"@) == data.member("gas_ohm"@)
        },
        key != "data"@ ==> json_node(*final(payload)).member(key) == json_node(
            *old(payload),
        ).member(key),
{
    lemma_data_keys_differ();
    lemma_input_keys_differ();
    law_derived_numbers_stand_under_their_keys(data, derived, "temp_c"@);
    law_derived_numbers_stand_under_their_keys(data, derived, "rel_hum_perc"@);
    law_derived_numbers_stand_under_their_keys(data, derived, "gas_ohm"@);
}

/// Tells the keys of what was measured from those of what is derived.
proof fn lemma_input_keys_differ()
    ensures
        "temp_c"@.len() == 6,
        "rel_hum_perc"@.len() == 12,
        "rel_hum_perc"@[0] != "heat_index_c"@[0],
        "rel_hum_perc"@[0] != "pressure_hpa"@[0],
        "gas_ohm"@.len() == 7,
{
    reveal_strlit("temp_c");
    reveal_strlit("rel_hum_perc");
    reveal_strlit("gas_ohm");
    reveal_strlit("heat_index_c");
    reveal_strlit("pressure_hpa");
}

/// A message whose data are missing, or no object, is left as it is.
pub proof fn law_messages_without_data_are_left_alone(
    payload: &mut Value,
    derived: SensorDerived,
    r: Result<(), TransformError>,
)
    requires
        call_ensures(TransformStage::store_sensor_payload, (payload, derived), r),
        json_node(*payload).member("data"@) matches Some(data) ==> !(data is Object),
    ensures
        r matches Err(TransformError::DataMissing),
        json_node(*final(payload)) == json_node(*old(payload)),
{
}

/// A message that was read in its canonical form goes on with it, and any other is
/// marked for the dead-letter queue.
pub proof fn law_only_read_messages_go_on(
    stage: TransformStage,
    ctx: &mut PipelineContext,
    read: Result<HandledMessage, String>,
    r: (StageFlow, &'static str),
)
    requires
        call_ensures(TransformStage::finish, (&stage, ctx, read), r),
        ctx@.dlq_reason is None,
    ensures
        r.0 is Continue <==> read is Ok,
        final(ctx)@.dlq_reason is Some <==> read is Err,
        read matches Ok(msg) ==> final(ctx)@.handled_message == Some(msg),
        read is Err ==> final(ctx)@.handled_message == old(ctx)@.handled_message,
{
}

/// A message on a topic without a route is ignored, a message on the state of a
/// device goes on to be read, and one of a sensor goes on to have its numbers
/// derived, unless it has a fault.
pub proof fn law_transformation_goes_by_the_route(
    stage: TransformStage,
    ctx: &mut PipelineContext,
    r: Result<TransformStep, ContextError>,
)
    requires
        call_ensures(TransformStage::begin, (&stage, ctx), r),
        ctx@.payload_json is Some,
        ctx@.dlq_reason is None,
        ctx@.ignored_reason is None,
    ensures
        final(ctx)@.ignored_reason is Some <==> stage.spec_router().route_of(old(ctx)@.topic)
            is None,
        r matches Ok(TransformStep::Read(_)) <==> (stage.spec_router().route_of(
            old(ctx)@.topic,
        ) matches Some(route) && route.kind() is Status),
        r matches Ok(TransformStep::Read(kind)) ==> kind is Status,
        r matches Ok(TransformStep::Derive(_)) ==> (stage.spec_router().route_of(
            old(ctx)@.topic,
        ) matches Some(route) && route.kind() is Sensor),
        final(ctx)@.dlq_reason is Some ==> (stage.spec_router().route_of(
            old(ctx)@.topic,
        ) matches Some(route) && route.kind() is Sensor),
{
}

/// The text of an error ends with what is wrong: the number that is missing or out
/// of range.
pub proof fn law_errors_name_the_number(error: TransformError)
    ensures
        error matches TransformError::FieldMissing(key) ==> key@.is_suffix_of(error.text()),
        error matches TransformError::NonFinite(key) ==> key@.is_suffix_of(error.text()),
        error matches TransformError::Humidity(r) ==> r.text@.is_suffix_of(error.text()),
        error matches TransformError::Gas(r) ==> r.text@.is_suffix_of(error.text()),
        error matches TransformError::Pressure(r) ==> r.text@.is_suffix_of(error.text()),
{
    match error {
        TransformError::FieldMissing(key) => lemma_suffix(
            "missing or non-numeric field: sensor.data."@,
            key@,
        ),
        TransformError::NonFinite(key) => lemma_suffix(
            "cannot store non-finite float in field "@,
            key@,
        ),
        TransformError::Humidity(r) => lemma_suffix(
            "sensor.data.rel_hum_perc must be in (0,100], got "@,
            r.text@,
        ),
        TransformError::Gas(r) => lemma_suffix("sensor.data.gas_ohm must be > 0, got "@, r.text@),
        TransformError::Pressure(r) => lemma_suffix(
            "sensor.data.pressure_hpa out of transform-safe range [300,1200], got "@,
            r.text@,
        ),
        TransformError::DataMissing => {},
    }
}

proof fn lemma_suffix(before: Seq<char>, end: Seq<char>)
    ensures
        end.is_suffix_of(before + end),
{
    assert((before + end).subrange(before.len() as int, (before + end).len() as int) =~= end);
}

/// Every fault of a message has an error of its own.
pub proof fn law_errors_tell_the_faults(error: TransformError, a: SensorFault, b: SensorFault)
    ensures
        error.is_fault(a) && error.is_fault(b) ==> a == b,
        error.is_fault(a) ==> !(error is NonFinite),
{
}

/// A message of a sensor goes on to be read if and only if every derived number is
/// finite; otherwise it is marked for the dead-letter queue.
pub proof fn law_only_finite_numbers_go_on(
    stage: TransformStage,
    ctx: &mut PipelineContext,
    derived: SensorDerived,
    node: JsonNode,
    data: JsonNode,
    r: Result<TransformStep, ContextError>,
)
    requires
        call_ensures(TransformStage::derived, (&stage, ctx, derived), r),
        ctx@.payload_json == Some(node),
        ctx@.dlq_reason is None,
        node.member("data"@) == Some(data),
        data is Object,
    ensures
        ({
            let finite = derived.dew_point_c is Some && derived.heat_index_c is Some
                && derived.iaq_score is Some && derived.pressure_hpa is Some
                && derived.altitude_m is Some;
            &&& finite <==> final(ctx)@.dlq_reason is None
            &&& finite <==> (r matches Ok(TransformStep::Read(kind)) && kind is Sensor)
            &&& finite ==> (final(ctx)@.payload_json matches Some(after) && after.member("data"@)
                == Some(derived_data(data, derived).0))
        }),
{
    law_numbers_that_are_not_finite_are_not_stored(data, derived);
}

} // verus!
