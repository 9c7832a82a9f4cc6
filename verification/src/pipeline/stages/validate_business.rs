//! Business validation: whether a message makes sense in its canonical form.

use serde_json::Value;
use vstd::prelude::*;

use crate::infrastructure::json::{json_node, JsonNode};
use crate::infrastructure::schema::{
    schema_accepts, schema_fault, schema_source, JsonSchema, SchemaError, SchemaLoadError,
    SchemaSource, SENSOR_BUSINESS_SCHEMA, STATUS_BUSINESS_SCHEMA,
};
use crate::model::messages::{
    HandledMessage, MessageType, Reading, SensorData, SensorMessage, StatusMessage,
};
use crate::pipeline::context::{ContextError, PipelineContext};
use crate::pipeline::stage::{StageFlow, StageResult};

verus! {

/// The stage that holds a message in its canonical form against a schema.
pub struct ValidateBusinessStage {
    sensor_schema: JsonSchema,
    status_schema: JsonSchema,
}

/// Why there is no such stage: the schema of this kind of message cannot be
/// loaded.
#[derive(Debug, Clone, Copy, PartialEq, Eq, Structural)]
pub struct BusinessLoadError {
    pub kind: MessageType,
    pub cause: SchemaLoadError,
}

impl BusinessLoadError {
    pub fn message(&self) -> (s: String)
        ensures
            s@ == (match self.kind {
                MessageType::Sensor => "failed to load sensor business schema"@,
                MessageType::Status => "failed to load status business schema"@,
            }),
    {
        match self.kind {
            MessageType::Sensor => String::from_str("failed to load sensor business schema"),
            MessageType::Status => String::from_str("failed to load status business schema"),
        }
    }
}

/// Why a message does not pass.
#[derive(Debug)]
pub enum BusinessError {
    /// The message has no JSON form.
    Serialize(MessageType),
    /// The schema rejects the message.
    Schema(MessageType, SchemaError),
}

impl BusinessError {
    /// The text of the error.
    pub open spec fn text(&self) -> Seq<char> {
        match self {
            BusinessError::Serialize(MessageType::Sensor) =>
                "failed to serialize SensorMessage for business validation"@,
            BusinessError::Serialize(MessageType::Status) =>
                "failed to serialize StatusMessage for business validation"@,
            BusinessError::Schema(MessageType::Sensor, _) =>
                "sensor business schema validation failed"@,
            BusinessError::Schema(MessageType::Status, _) =>
                "status business schema validation failed"@,
        }
    }

    pub fn message(&self) -> (s: String)
        ensures
            s@ == self.text(),
    {
        match self {
            BusinessError::Serialize(MessageType::Sensor) => String::from_str(
                "failed to serialize SensorMessage for business validation",
            ),
            BusinessError::Serialize(MessageType::Status) => String::from_str(
                "failed to serialize StatusMessage for business validation",
            ),
            BusinessError::Schema(MessageType::Sensor, _) => {
                String::from_str("sensor business schema validation failed")
            },
            BusinessError::Schema(MessageType::Status, _) => {
                String::from_str("status business schema validation failed")
            },
        }
    }
}

/// Whether a member is this text.
pub open spec fn is_text(member: Option<JsonNode>, s: String) -> bool {
    member == Some(JsonNode::Text(s@))
}

/// Whether a member is stored as this integer.
pub open spec fn is_integer(member: Option<JsonNode>, n: i64) -> bool {
    member matches Some(JsonNode::Number { integer, .. }) && integer == Some(n as int)
}

/// Whether a member is this number, or `null` where the number is not finite.
pub open spec fn is_reading(member: Option<JsonNode>, reading: Reading) -> bool {
    if reading.bits % 0x8000_0000_0000_0000 < 0x7ff0_0000_0000_0000 {
        member == Some(JsonNode::Number { integer: None, double: reading.bits })
    } else {
        member == Some(JsonNode::Null)
    }
}

/// Whether an object has these members and no others.
pub open spec fn has_just(node: JsonNode, keys: Set<Seq<char>>) -> bool {
    node matches JsonNode::Object(members) && members.dom() == keys
}

/// Whether this is the JSON form of the data of a sensor.
pub open spec fn is_data_form(node: JsonNode, data: SensorData) -> bool {
    &&& has_just(
        node,
        set![
            "temp_c"@,
            "rel_hum_perc"@,
            "pressure_hpa"@,
            "gas_ohm"@,
            "iaq_score"@,
            "iaq_text"@,
            "dew_point_c"@,
            "heat_index_c"@,
            "altitude_m"@,
        ],
    )
    &&& is_reading(node.member("temp_c"@), data.temp_c)
    &&& is_reading(node.member("rel_hum_perc"@), data.rel_hum_perc)
    &&& is_reading(node.member("pressure_hpa"@), data.pressure_hpa)
    &&& is_reading(node.member("gas_ohm"@), data.gas_ohm)
    &&& is_reading(node.member("iaq_score"@), data.iaq_score)
    &&& is_text(node.member("iaq_text"@), data.iaq_text)
    &&& is_reading(node.member("dew_point_c"@), data.dew_point_c)
    &&& is_reading(node.member("heat_index_c"@), data.heat_index_c)
    &&& is_reading(node.member("altitude_m"@), data.altitude_m)
}

/// Whether this is the JSON form of a message of a sensor.
pub open spec fn is_sensor_form(node: JsonNode, msg: SensorMessage) -> bool {
    &&& has_just(
        node,
        set![
            "device_id"@,
            "room"@,
            "device_class"@,
            "fw_version"@,
            "time_ms"@,
            "time_iso"@,
            "time_valid"@,
            "data"@,
        ],
    )
    &&& is_text(node.member("device_id"@), msg.device_id)
    &&& is_text(node.member("room"@), msg.room)
    &&& is_text(node.member("device_class"@), msg.device_class)
    &&& is_text(node.member("fw_version"@), msg.fw_version)
    &&& is_integer(node.member("time_ms"@), msg.time_ms)
    &&& is_text(node.member("time_iso"@), msg.time_iso)
    &&& node.member("time_valid"@) == Some(JsonNode::Flag(msg.time_valid))
    &&& node.member("data"@) matches Some(data) && is_data_form(data, msg.data)
}

/// Whether this is the JSON form of a message on the state of a device.
pub open spec fn is_status_form(node: JsonNode, msg: StatusMessage) -> bool {
    &&& has_just(
        node,
        set![
            "device_id"@,
            "device_class"@,
            "fw_version"@,
            "ip"@,
            "rssi"@,
            "time_ms"@,
            "time_iso"@,
            "time_valid"@,
            "uptime"@,
            "free_mem"@,
            "ssid"@,
        ],
    )
    &&& is_text(node.member("device_id"@), msg.device_id)
    &&& is_text(node.member("device_class"@), msg.device_class)
    &&& is_text(node.member("fw_version"@), msg.fw_version)
    &&& is_text(node.member("ip"@), msg.ip)
    &&& is_integer(node.member("rssi"@), msg.rssi)
    &&& is_integer(node.member("time_ms"@), msg.time_ms)
    &&& is_text(node.member("time_iso"@), msg.time_iso)
    &&& node.member("time_valid"@) == Some(JsonNode::Flag(msg.time_valid))
    &&& is_integer(node.member("uptime"@), msg.uptime)
    &&& is_integer(node.member("free_mem"@), msg.free_mem)
    &&& is_text(node.member("ssid"@), msg.ssid)
}

/// Whether this is the JSON form of a message: an object with a member for each
/// of its parts.
pub open spec fn is_form_of(node: JsonNode, msg: HandledMessage) -> bool {
    match msg {
        HandledMessage::Sensor(msg) => is_sensor_form(node, msg),
        HandledMessage::Status(msg) => is_status_form(node, msg),
    }
}

impl ValidateBusinessStage {
    /// The schema of a kind of message.
    pub closed spec fn source(&self, kind: MessageType) -> SchemaSource {
        match kind {
            MessageType::Sensor => self.sensor_schema.source(),
            MessageType::Status => self.status_schema.source(),
        }
    }

    /// Whether the schema of a kind of message accepts a message.
    pub open spec fn accepts(&self, kind: MessageType, message: JsonNode) -> bool {
        schema_accepts(self.source(kind), message)
    }

    /// Loads the schemas, that of the messages of sensors first.
    pub fn new() -> (r: Result<Self, BusinessLoadError>)
        ensures
            match (schema_fault(SENSOR_BUSINESS_SCHEMA@), schema_fault(STATUS_BUSINESS_SCHEMA@)) {
                (Some(cause), _) => r == Err::<Self, BusinessLoadError>(
                    (BusinessLoadError { kind: MessageType::Sensor, cause }),
                ),
                (None, Some(cause)) => r == Err::<Self, BusinessLoadError>(
                    (BusinessLoadError { kind: MessageType::Status, cause }),
                ),
                (None, None) => r matches Ok(stage) && stage.source(MessageType::Sensor)
                    == schema_source(SENSOR_BUSINESS_SCHEMA@) && stage.source(MessageType::Status)
                    == schema_source(STATUS_BUSINESS_SCHEMA@),
            },
    {
        let sensor_schema = match JsonSchema::new(SENSOR_BUSINESS_SCHEMA) {
            Ok(schema) => schema,
            Err(cause) => {
                return Err(BusinessLoadError { kind: MessageType::Sensor, cause });
            },
        };
        let status_schema = match JsonSchema::new(STATUS_BUSINESS_SCHEMA) {
            Ok(schema) => schema,
            Err(cause) => {
                return Err(BusinessLoadError { kind: MessageType::Status, cause });
            },
        };
        Ok(ValidateBusinessStage { sensor_schema, status_schema })
    }

    pub fn name(&self) -> (s: &'static str)
        ensures
            s@ == "validate_business"@,
    {
        "validate_business"
    }

    /// Whether a message passes. `message` is its JSON form, if it has one.
    pub fn validate_handled_message(&self, handled: &HandledMessage, message: Option<&Value>) -> (r:
        Result<(), BusinessError>)
        requires
            message matches Some(value) ==> is_form_of(json_node(*value), *handled),
        ensures
            match message {
                None => r matches Err(BusinessError::Serialize(k)) && k == handled.spec_kind(),
                Some(value) => if self.accepts(handled.spec_kind(), json_node(*value)) {
                    r is Ok
                } else {
                    r matches Err(BusinessError::Schema(k, e)) && k == handled.spec_kind()
                        && e.message@ == self.source(handled.spec_kind()).rejection(
                        json_node(*value),
                    )
                },
            },
    {
        let kind = handled.kind();
        let value = match message {
            Some(value) => value,
            None => {
                return Err(BusinessError::Serialize(kind));
            },
        };
        let result = match kind {
            MessageType::Sensor => self.sensor_schema.validate(value),
            MessageType::Status => self.status_schema.validate(value),
        };
        match result {
            Ok(()) => Ok(()),
            Err(e) => Err(BusinessError::Schema(kind, e)),
        }
    }

    /// Holds a message against the schema of its kind. `message` is its JSON
    /// form, if it has one. It fails if there is no message.
    pub fn run(&self, ctx: &mut PipelineContext, message: Option<&Value>) -> (r: StageResult)
        requires
            match (old(ctx)@.handled_message, message) {
                (Some(handled), Some(value)) => is_form_of(json_node(*value), handled),
                _ => true,
            },
        ensures
            match old(ctx)@.handled_message {
                None => r matches Err(ContextError::HandledMessage) && final(ctx)@ == old(ctx)@,
                Some(handled) => {
                    let kind = handled.spec_kind();
                    match message {
                        Some(value) => if self.accepts(kind, json_node(*value)) {
                            &&& final(ctx)@ == old(ctx)@
                            &&& r matches Ok((flow, label)) && flow is Continue && label@
                                == "success"@
                        } else {
                            &&& final(ctx)@ == old(ctx)@.marked_dlq(
                                "business validation failed: "@ + (match kind {
                                    MessageType::Sensor =>
                                        "sensor business schema validation failed"@,
                                    MessageType::Status =>
                                        "status business schema validation failed"@,
                                }),
                            )
                            &&& r matches Ok((flow, label)) && flow is Stop && label@ == "failed"@
                        },
                        None => {
                            &&& final(ctx)@ == old(ctx)@.marked_dlq(
                                "business validation failed: "@ + BusinessError::Serialize(
                                    kind,
                                ).text(),
                            )
                            &&& r matches Ok((flow, label)) && flow is Stop && label@ == "failed"@
                        },
                    }
                },
            },
    {
        let result = match ctx.handled_message() {
            Ok(handled) => self.validate_handled_message(handled, message),
            Err(e) => {
                return Err(e);
            },
        };
        match result {
            Ok(()) => Ok((StageFlow::Continue, "success")),
            Err(e) => {
                let mut reason = String::from_str("business validation failed: ");
                reason.append(e.message().as_str());
                ctx.mark_dlq(reason.as_str());
                Ok((StageFlow::Stop, "failed"))
            },
        }
    }
}

/// A message is valid if and only if it has a form and the schema of its own kind
/// accepts that.
pub proof fn law_messages_are_valid_by_the_schema_of_their_kind(
    stage: ValidateBusinessStage,
    handled: HandledMessage,
    value: Value,
    r: Result<(), BusinessError>,
    none: Result<(), BusinessError>,
)
    requires
        is_form_of(json_node(value), handled),
        call_ensures(
            ValidateBusinessStage::validate_handled_message,
            (&stage, &handled, Some(&value)),
            r,
        ),
        call_ensures(
            ValidateBusinessStage::validate_handled_message,
            (&stage, &handled, None),
            none,
        ),
    ensures
        handled is Sensor ==> (r is Ok <==> schema_accepts(
            stage.source(MessageType::Sensor),
            json_node(value),
        )),
        handled is Status ==> (r is Ok <==> schema_accepts(
            stage.source(MessageType::Status),
            json_node(value),
        )),
        none is Err,
{
}

/// A message goes on if and only if the schema of its kind accepts it, and is
/// marked for the dead-letter queue if and only if it does not.
pub proof fn law_only_valid_messages_go_on(
    stage: ValidateBusinessStage,
    ctx: &mut PipelineContext,
    handled: HandledMessage,
    value: Value,
    r: StageResult,
)
    requires
        ctx@.handled_message == Some(handled),
        ctx@.dlq_reason is None,
        is_form_of(json_node(value), handled),
        call_ensures(ValidateBusinessStage::run, (&stage, ctx, Some(&value)), r),
    ensures
        r matches Ok((flow, label)) && (flow is Continue <==> schema_accepts(
            stage.source(handled.spec_kind()),
            json_node(value),
        )) && (final(ctx)@.dlq_reason is Some <==> flow is Stop),
        final(ctx)@.handled_message == Some(handled),
{
}

/// The form of a message has each of its parts under its own name.
pub proof fn law_form_has_each_part(node: JsonNode, sensor: SensorMessage, status: StatusMessage)
    ensures
        is_form_of(node, HandledMessage::Sensor(sensor)) ==> {
            &&& node.member_text("device_id"@) == Some(sensor.device_id@)
            &&& node.member_text("room"@) == Some(sensor.room@)
            &&& node.member_text("device_class"@) == Some(sensor.device_class@)
            &&& node.member_text("fw_version"@) == Some(sensor.fw_version@)
            &&& node.member_text("time_iso"@) == Some(sensor.time_iso@)
            &&& node.member("time_valid"@) == Some(JsonNode::Flag(sensor.time_valid))
            &&& node.member("time_ms"@) matches Some(JsonNode::Number { integer, .. }) && integer
                == Some(sensor.time_ms as int)
            &&& node.member("data"@) matches Some(data) && data.member_text("iaq_text"@) == Some(
                sensor.data.iaq_text@,
            )
        },
        is_form_of(node, HandledMessage::Status(status)) ==> {
            &&& node.member_text("device_id"@) == Some(status.device_id@)
            &&& node.member_text("device_class"@) == Some(status.device_class@)
            &&& node.member_text("fw_version"@) == Some(status.fw_version@)
            &&& node.member_text("ip"@) == Some(status.ip@)
            &&& node.member_text("ssid"@) == Some(status.ssid@)
            &&& node.member_text("time_iso"@) == Some(status.time_iso@)
            &&& node.member("time_valid"@) == Some(JsonNode::Flag(status.time_valid))
            &&& node.member("rssi"@) matches Some(JsonNode::Number { integer, .. }) && integer
                == Some(status.rssi as int)
            &&& node.member("uptime"@) matches Some(JsonNode::Number { integer, .. }) && integer
                == Some(status.uptime as int)
            &&& node.member("free_mem"@) matches Some(JsonNode::Number { integer, .. }) && integer
                == Some(status.free_mem as int)
        },
{
}

/// The form of what a sensor measured has each number under its own name. A finite
/// number is a number there, and any other is null.
pub proof fn law_form_has_each_number(node: JsonNode, data: SensorData, reading: Reading)
    requires
        is_data_form(node, data),
    ensures
        is_reading(node.member("temp_c"@), data.temp_c),
        is_reading(node.member("rel_hum_perc"@), data.rel_hum_perc),
        is_reading(node.member("pressure_hpa"@), data.pressure_hpa),
        is_reading(node.member("gas_ohm"@), data.gas_ohm),
        is_reading(node.member("iaq_score"@), data.iaq_score),
        is_reading(node.member("dew_point_c"@), data.dew_point_c),
        is_reading(node.member("heat_index_c"@), data.heat_index_c),
        is_reading(node.member("altitude_m"@), data.altitude_m),
        data.temp_c.bits < 0x7ff0_0000_0000_0000 ==> node.member_double("temp_c"@) == Some(
            data.temp_c.bits,
        ),
        data.temp_c.bits == 0x7ff0_0000_0000_0000 ==> node.member("temp_c"@) == Some(
            JsonNode::Null,
        ),
        node is Object,
{
}

/// The form of a message has no member but those of its kind.
pub proof fn law_form_has_nothing_else(
    node: JsonNode,
    sensor: SensorMessage,
    status: StatusMessage,
    key: Seq<char>,
)
    ensures
        is_form_of(node, HandledMessage::Sensor(sensor)) && key != "device_id"@ && key != "room"@
            && key != "device_class"@ && key != "fw_version"@ && key != "time_ms"@ && key
            != "time_iso"@ && key != "time_valid"@ && key != "data"@ ==> node.member(key) is None,
        is_form_of(node, HandledMessage::Status(status)) && key != "device_id"@ && key
            != "device_class"@ && key != "fw_version"@ && key != "ip"@ && key != "rssi"@ && key
            != "time_ms"@ && key != "time_iso"@ && key != "time_valid"@ && key != "uptime"@ && key
            != "free_mem"@ && key != "ssid"@ ==> node.member(key) is None,
{
}

} // verus!
