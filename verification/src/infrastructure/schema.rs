//! JSON Schema validation, with the `jsonschema` crate.

use jsonschema::Validator;
use serde_json::Value;
use vstd::prelude::*;

use crate::infrastructure::json;
use crate::infrastructure::json::{json_node, parsed_json, JsonNode};
use crate::text;

verus! {

/// The name under which schemas refer to [`BASE_SCHEMA`].
pub const BASE_SCHEMA_URI: &'static str = "https://smarthome-ingest/base.schema.json";

/// What every message has.
pub const BASE_SCHEMA: &'static str = r#"{
  "$schema": "https://json-schema.org/draft/2020-12/schema",
  "$id": "https://smarthome-ingest/base.schema.json",
  "type": "object",
  "required": ["device_id", "device_class", "fw_version", "time_ms", "time_iso", "time_valid"],
  "properties": {
    "device_id": { "type": "string" },
    "device_class": { "type": "string" },
    "fw_version": { "type": "string" },
    "time_ms": { "type": "integer" },
    "time_iso": { "type": "string" },
    "time_valid": { "type": "boolean" }
  }
}"#;

/// What a message of a sensor has when it comes in.
pub const SENSOR_SCHEMA: &'static str = r#"{
  "$schema": "https://json-schema.org/draft/2020-12/schema",
  "allOf": [{ "$ref": "https://smarthome-ingest/base.schema.json" }],
  "type": "object",
  "required": ["room", "data"],
  "properties": {
    "room": { "type": "string" },
    "data": {
      "type": "object",
      "required": ["temp_c", "rel_hum_perc", "pressure_hpa", "gas_ohm", "altitude_m"],
      "properties": {
        "temp_c": { "type": "number" },
        "rel_hum_perc": { "type": "number" },
        "pressure_hpa": { "type": "number" },
        "gas_ohm": { "type": "number" },
        "altitude_m": { "type": "number" }
      }
    }
  }
}"#;

/// What a message on the state of a device has when it comes in.
pub const STATUS_SCHEMA: &'static str = r#"{
  "$schema": "https://json-schema.org/draft/2020-12/schema",
  "allOf": [{ "$ref": "https://smarthome-ingest/base.schema.json" }],
  "type": "object",
  "required": ["ip", "rssi"],
  "properties": {
    "ip": { "type": "string" },
    "rssi": { "type": "integer" },
    "uptime": { "type": "integer" },
    "free_mem": { "type": "integer" },
    "ssid": { "type": "string" }
  }
}"#;

/// What a message of a sensor has in its canonical form.
pub const SENSOR_BUSINESS_SCHEMA: &'static str = r#"{
  "$schema": "https://json-schema.org/draft/2020-12/schema",
  "allOf": [{ "$ref": "https://smarthome-ingest/base.schema.json" }],
  "type": "object",
  "required": ["room", "data"],
  "properties": {
    "device_id": { "type": "string", "minLength": 1 },
    "time_ms": { "type": "integer", "minimum": 0 },
    "room": { "type": "string" },
    "data": {
      "type": "object",
      "required": [
        "temp_c", "rel_hum_perc", "pressure_hpa", "gas_ohm", "iaq_score", "iaq_text",
        "dew_point_c", "heat_index_c", "altitude_m"
      ],
      "properties": {
        "temp_c": { "type": "number" },
        "rel_hum_perc": { "type": "number", "exclusiveMinimum": 0, "maximum": 100 },
        "pressure_hpa": { "type": "number" },
        "gas_ohm": { "type": "number", "exclusiveMinimum": 0 },
        "iaq_score": { "type": "number", "minimum": 0, "maximum": 100 },
        "iaq_text": { "type": "string", "minLength": 1 },
        "dew_point_c": { "type": "number" },
        "heat_index_c": { "type": "number" },
        "altitude_m": { "type": "number" }
      }
    }
  }
}"#;

/// What a message on the state of a device has in its canonical form.
pub const STATUS_BUSINESS_SCHEMA: &'static str = r#"{
  "$schema": "https://json-schema.org/draft/2020-12/schema",
  "allOf": [{ "$ref": "https://smarthome-ingest/base.schema.json" }],
  "type": "object",
  "required": ["ip", "rssi", "uptime", "free_mem", "ssid"],
  "properties": {
    "device_id": { "type": "string", "minLength": 1 },
    "time_ms": { "type": "integer", "minimum": 0 },
    "ip": { "type": "string", "minLength": 1 },
    "rssi": { "type": "integer" },
    "uptime": { "type": "integer", "minimum": 0 },
    "free_mem": { "type": "integer", "minimum": 0 },
    "ssid": { "type": "string" }
  }
}"#;

/// No more messages than this are given of an instance that a schema rejects.
pub const MAX_SCHEMA_ERRORS: usize = 10;

/// The compiled schema of the `jsonschema` crate.
#[verifier::external_type_specification]
#[verifier::external_body]
pub struct ExValidator(Validator);

/// The error of the `jsonschema` crate.
#[verifier::external_type_specification]
#[verifier::external_body]
pub struct ExValidationError<'a>(jsonschema::ValidationError<'a>);

/// A schema, and another one that it may refer to by this name.
pub struct SchemaSource {
    pub uri: Seq<char>,
    pub base: JsonNode,
    pub schema: JsonNode,
}

/// What a validator was compiled from.
pub uninterp spec fn compiled_from(validator: Validator) -> SchemaSource;

/// Whether a schema can be compiled.
pub uninterp spec fn schema_compiles(source: SchemaSource) -> bool;

/// Whether a schema accepts an instance.
pub uninterp spec fn schema_accepts(source: SchemaSource, instance: JsonNode) -> bool;

/// `jsonschema::options`, with the base schema as a resource under a name, and
/// `build`: whether it succeeds depends on the two schemas and the name.
#[verifier::external_body]
fn compile(uri: &str, base: Value, schema: &Value) -> (r: Result<
    Validator,
    jsonschema::ValidationError<'static>,
>)
    ensures
        ({
            let source = SchemaSource {
                uri: uri@,
                base: json_node(base),
                schema: json_node(*schema),
            };
            match r {
                Ok(validator) => schema_compiles(source) && compiled_from(validator) == source,
                Err(_) => !schema_compiles(source),
            }
        }),
{
    jsonschema::options()
        .with_resource(uri, jsonschema::Resource::from_contents(base))
        .build(schema)
}

/// `Validator::is_valid`: whether an instance is accepted depends on the schema
/// and on what the instance holds.
#[verifier::external_body]
fn is_valid(validator: &Validator, instance: &Value) -> (r: bool)
    ensures
        r == schema_accepts(compiled_from(*validator), json_node(*instance)),
{
    validator.is_valid(instance)
}

/// What a schema says against an instance: the texts of the errors, in their
/// order.
pub uninterp spec fn schema_errors(source: SchemaSource, instance: JsonNode) -> Seq<Seq<char>>;

/// `Validator::iter_errors`: the errors, in their order, as `Display` gives them.
/// The keywords of a schema are walked in the order of their names, and so are
/// the members of an instance, so that the errors depend on what the schemas and
/// the instance hold alone.
#[verifier::external_body]
fn errors_of(validator: &Validator, instance: &Value) -> (r: Vec<String>)
    ensures
        text::views(r@) == schema_errors(compiled_from(*validator), json_node(*instance)),
{
    validator.iter_errors(instance).map(|e| e.to_string()).collect()
}

/// Leaves the first of some texts, at most `limit` of them.
fn keep_first(texts: &mut Vec<String>, limit: usize)
    ensures
        text::views(final(texts)@) == first_of(text::views(old(texts)@), limit as nat),
{
    if texts.len() > limit {
        texts.truncate(limit);
        proof {
            assert(text::views(texts@) =~= text::views(old(texts)@).take(limit as int));
        }
    }
}

/// Compiled JSON Schema validator with the shared base schema preloaded.
pub struct JsonSchema {
    schema: Validator,
}

/// Why there is no compiled schema.
#[derive(Debug, Clone, Copy, PartialEq, Eq, Structural)]
pub enum SchemaLoadError {
    /// The base schema is no JSON document.
    Base,
    /// The schema is no JSON document.
    Schema,
    /// The schema cannot be compiled.
    Compile,
}

/// The schema with this text, which may refer to the base schema.
pub open spec fn schema_source(schema: Seq<char>) -> SchemaSource {
    SchemaSource {
        uri: BASE_SCHEMA_URI@,
        base: parsed_json(BASE_SCHEMA@)->0,
        schema: parsed_json(schema)->0,
    }
}

/// Why there is no compiled schema of a text, if there is none.
pub open spec fn schema_fault(schema: Seq<char>) -> Option<SchemaLoadError> {
    if parsed_json(BASE_SCHEMA@) is None {
        Some(SchemaLoadError::Base)
    } else if parsed_json(schema) is None {
        Some(SchemaLoadError::Schema)
    } else if !schema_compiles(schema_source(schema)) {
        Some(SchemaLoadError::Compile)
    } else {
        None
    }
}

impl SchemaLoadError {
    pub fn message(&self) -> (s: String)
        ensures
            s@ == (match self {
                SchemaLoadError::Base => "Failed to parse embedded base schema"@,
                SchemaLoadError::Schema => "Failed to parse embedded JSON schema"@,
                SchemaLoadError::Compile => "Failed to compile JSON schema"@,
            }),
    {
        match self {
            SchemaLoadError::Base => String::from_str("Failed to parse embedded base schema"),
            SchemaLoadError::Schema => String::from_str("Failed to parse embedded JSON schema"),
            SchemaLoadError::Compile => String::from_str("Failed to compile JSON schema"),
        }
    }
}

/// Why a schema rejects an instance.
#[derive(Debug)]
pub struct SchemaError {
    pub message: String,
}

/// The first of some texts, at most `limit` of them.
pub open spec fn first_of(texts: Seq<Seq<char>>, limit: nat) -> Seq<Seq<char>> {
    if texts.len() <= limit {
        texts
    } else {
        texts.take(limit as int)
    }
}

/// The message of a rejection with these causes.
pub open spec fn rejection_text(causes: Seq<Seq<char>>) -> Seq<char> {
    "schema validation failed: "@ + text::join_with(causes, " | "@)
}

/// The message of a rejection with these causes.
pub fn rejection_message(causes: &Vec<String>) -> (s: String)
    ensures
        s@ == rejection_text(text::views(causes@)),
{
    let mut s = String::from_str("schema validation failed: ");
    s.append(text::join(causes, " | ").as_str());
    s
}

impl SchemaSource {
    /// The message on an instance that the schema rejects: it gives the first
    /// few causes.
    pub open spec fn rejection(self, instance: JsonNode) -> Seq<char> {
        rejection_text(first_of(schema_errors(self, instance), MAX_SCHEMA_ERRORS as nat))
    }
}

impl JsonSchema {
    /// What was compiled.
    pub closed spec fn source(&self) -> SchemaSource {
        compiled_from(self.schema)
    }

    /// Compiles a schema. It fails if the base schema or the schema is no JSON
    /// document, or if the schema cannot be compiled.
    pub fn new(schema: &str) -> (r: Result<Self, SchemaLoadError>)
        ensures
            match schema_fault(schema@) {
                Some(fault) => r matches Err(e) && e == fault,
                None => r matches Ok(compiled) && compiled.source() == schema_source(schema@),
            },
    {
        let base = match json::parse_json(BASE_SCHEMA) {
            Ok(value) => value,
            Err(_) => {
                return Err(SchemaLoadError::Base);
            },
        };
        let value = match json::parse_json(schema) {
            Ok(value) => value,
            Err(_) => {
                return Err(SchemaLoadError::Schema);
            },
        };
        match compile(BASE_SCHEMA_URI, base, &value) {
            Ok(schema) => Ok(JsonSchema { schema }),
            Err(_) => Err(SchemaLoadError::Compile),
        }
    }

    /// Whether the schema accepts an instance. The message of a rejection gives
    /// the first few causes.
    pub fn validate(&self, instance: &Value) -> (r: Result<(), SchemaError>)
        ensures
            match r {
                Ok(()) => schema_accepts(self.source(), json_node(*instance)),
                Err(e) => !schema_accepts(self.source(), json_node(*instance)) && e.message@
                    == self.source().rejection(json_node(*instance)),
            },
    {
        if is_valid(&self.schema, instance) {
            return Ok(());
        }
        let mut causes = errors_of(&self.schema, instance);
        keep_first(&mut causes, MAX_SCHEMA_ERRORS);
        Err(SchemaError { message: rejection_message(&causes) })
    }
}

/// A rejected message is told the first ten of its faults, in order, or all of
/// them if there are no more.
pub proof fn law_first_ten_faults_are_told(source: SchemaSource, instance: JsonNode, i: int)
    ensures
        ({
            let faults = schema_errors(source, instance);
            let told = first_of(faults, MAX_SCHEMA_ERRORS as nat);
            &&& source.rejection(instance) == rejection_text(told)
            &&& faults.len() <= 10 ==> told.len() == faults.len()
            &&& faults.len() > 10 ==> told.len() == 10
            &&& 0 <= i < told.len() ==> told[i] == faults[i]
        }),
{
}

/// A fault more is told behind a vertical bar.
pub proof fn law_faults_are_told_apart(told: Seq<Seq<char>>, fault: Seq<char>)
    ensures
        told.len() > 0 ==> rejection_text(told.push(fault)) == rejection_text(told) + " | "@
            + fault,
        rejection_text(seq![fault]) == "schema validation failed: "@ + fault,
{
    assert(told.push(fault).drop_last() =~= told);
    if told.len() > 0 {
        assert(rejection_text(told.push(fault)) =~= rejection_text(told) + " | "@ + fault);
    }
}

/// Every schema may refer to the base schema, and a schema loads if and only if
/// both are JSON documents and it compiles.
pub proof fn law_schemas_load_with_the_base(schema: Seq<char>)
    ensures
        schema_fault(schema) is None <==> parsed_json(BASE_SCHEMA@) is Some && parsed_json(
            schema,
        ) is Some && schema_compiles(schema_source(schema)),
        parsed_json(BASE_SCHEMA@) is Some ==> Some(schema_source(schema).base) == parsed_json(
            BASE_SCHEMA@,
        ),
        parsed_json(schema) is Some ==> Some(schema_source(schema).schema) == parsed_json(schema),
        schema_source(schema).uri == BASE_SCHEMA_URI@,
{
}

/// An instance is valid if and only if the schema accepts it, and otherwise the
/// error is the rejection by that schema.
pub proof fn law_schemas_decide(
    text: &str,
    schema: JsonSchema,
    instance: Value,
    r: Result<(), SchemaError>,
)
    requires
        call_ensures(JsonSchema::new, (text,), Ok::<JsonSchema, SchemaLoadError>(schema)),
        call_ensures(JsonSchema::validate, (&schema, &instance), r),
    ensures
        r is Ok <==> schema_accepts(schema_source(text@), json_node(instance)),
        r matches Err(e) ==> e.message@ == schema_source(text@).rejection(json_node(instance)),
{
}

} // verus!
