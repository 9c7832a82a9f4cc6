//! Routes: which messages come on which topics, and what they must look like.

use serde_json::Value;
use vstd::prelude::*;

use crate::config::{env_view, Config, Environment};
use crate::infrastructure::json;
use crate::infrastructure::json::{json_node, JsonNode};
use crate::infrastructure::schema::{
    schema_accepts, schema_fault, schema_source, JsonSchema, SchemaError, SchemaLoadError,
    SchemaSource, SENSOR_SCHEMA, STATUS_SCHEMA,
};
use crate::model::messages::{HandledMessage, MessageType};
use crate::model::topic::{
    device_level, level_segments, pattern_fault, pattern_matches, topic_levels, SegmentView,
    TopicPattern, TopicPatternError,
};
use crate::text;

verus! {

/// Whether a text is a date and time as RFC 3339 has it.
pub uninterp spec fn is_rfc3339(s: Seq<char>) -> bool;

/// `chrono::DateTime::parse_from_rfc3339`, whose success depends on the text
/// alone.
#[verifier::external_body]
fn parses_as_rfc3339(s: &str) -> (r: bool)
    ensures
        r == is_rfc3339(s@),
{
    chrono::DateTime::parse_from_rfc3339(s).is_ok()
}

/// A single route combining pattern matching, schema validation, and expected
/// message type.
pub struct Route {
    pub message_type: MessageType,
    pattern: TopicPattern,
    schema: JsonSchema,
}

/// Why there is no route.
#[derive(Debug)]
pub enum RouteLoadError {
    Pattern(TopicPatternError),
    Schema(SchemaLoadError),
}

impl RouteLoadError {
    /// Whether this is what is wrong with a route with this schema and this
    /// pattern.
    pub open spec fn is_load_fault(&self, schema: Seq<char>, pattern: Seq<char>) -> bool {
        match (pattern_fault(pattern), schema_fault(schema)) {
            (Some(fault), _) => self matches RouteLoadError::Pattern(e) && e.is_fault(fault, pattern),
            (None, Some(fault)) => self matches RouteLoadError::Schema(e) && e == fault,
            (None, None) => false,
        }
    }

    pub fn message(&self) -> (s: String)
        ensures
            match self {
                RouteLoadError::Pattern(TopicPatternError::Empty) => s@
                    == "topic pattern must not be empty"@,
                RouteLoadError::Pattern(TopicPatternError::EmptySegment(raw)) => s@
                    == "topic pattern contains empty segment: '"@ + raw@ + "'"@,
                RouteLoadError::Pattern(TopicPatternError::MultiNotLast(raw)) => s@
                    == "'#' must be the last segment in topic pattern: '"@ + raw@ + "'"@,
                RouteLoadError::Schema(SchemaLoadError::Base) => s@
                    == "Failed to parse embedded base schema"@,
                RouteLoadError::Schema(SchemaLoadError::Schema) => s@
                    == "Failed to parse embedded JSON schema"@,
                RouteLoadError::Schema(SchemaLoadError::Compile) => s@
                    == "Failed to compile JSON schema"@,
            },
    {
        match self {
            RouteLoadError::Pattern(e) => e.message(),
            RouteLoadError::Schema(e) => e.message(),
        }
    }
}

/// Why a message does not pass its route.
#[derive(Debug)]
pub enum RouteError {
    /// No route matches this topic.
    NoRoute(String),
    /// The schema of the route rejects the message.
    Schema(SchemaError),
    /// The time of the message is this text, which is no time.
    TimeIso(String),
    /// The topic names no device.
    TopicDevice,
    /// The message names no device.
    PayloadDevice,
    /// The topic and the message name these different devices.
    DeviceMismatch { topic_dev: String, payload_dev: String },
    /// The message, which came on this topic, cannot be read into this kind.
    Read { kind: MessageType, topic: String },
}

impl RouteError {
    /// The text of the error.
    pub open spec fn text(&self) -> Seq<char> {
        match self {
            RouteError::NoRoute(topic) => "No route registered for topic: "@ + topic@,
            RouteError::Schema(_) => "schema validation failed"@,
            RouteError::TimeIso(s) => "time_iso not RFC3339: "@ + s@,
            RouteError::TopicDevice => "Failed to extract device_id from topic"@,
            RouteError::PayloadDevice => "Failed to extract device_id from payload"@,
            RouteError::DeviceMismatch { topic_dev, payload_dev } =>
                "device_id mismatch: topic has '"@ + topic_dev@ + "', payload has '"@ + payload_dev@
                    + "'"@,
            RouteError::Read { kind, topic } => kind.spec_str() + ": deserialization failed (topic="@
                + topic@ + ")"@,
        }
    }

    pub fn message(&self) -> (s: String)
        ensures
            s@ == self.text(),
    {
        match self {
            RouteError::NoRoute(topic) => {
                let mut s = String::from_str("No route registered for topic: ");
                s.append(topic.as_str());
                s
            },
            RouteError::Schema(_) => String::from_str("schema validation failed"),
            RouteError::TimeIso(time) => {
                let mut s = String::from_str("time_iso not RFC3339: ");
                s.append(time.as_str());
                s
            },
            RouteError::TopicDevice => String::from_str("Failed to extract device_id from topic"),
            RouteError::PayloadDevice => {
                String::from_str("Failed to extract device_id from payload")
            },
            RouteError::DeviceMismatch { topic_dev, payload_dev } => {
                let mut s = String::from_str("device_id mismatch: topic has '");
                s.append(topic_dev.as_str());
                s.append("', payload has '");
                s.append(payload_dev.as_str());
                s.append("'");
                s
            },
            RouteError::Read { kind, topic } => {
                let mut s = String::from_str(kind.as_str());
                s.append(": deserialization failed (topic=");
                s.append(topic.as_str());
                s.append(")");
                s
            },
        }
    }
}

/// The device that a topic names, for a pattern that names it at this level.
pub open spec fn topic_device(level: Option<nat>, topic: Seq<char>) -> Option<Seq<char>> {
    match level {
        Some(i) => if i < topic_levels(topic).len() {
            Some(topic_levels(topic)[i as int])
        } else {
            None
        },
        None => None,
    }
}

/// What a route makes of a message: the schema comes first, the time next, and
/// the device, if it is to match, last.
pub open spec fn route_result(
    route: &Route,
    topic: Seq<char>,
    payload: JsonNode,
    enforce_topic_device_match: bool,
    r: Result<MessageType, RouteError>,
) -> bool {
    let time = payload.member_text("time_iso"@);
    let topic_dev = topic_device(route.device_level(), topic);
    let payload_dev = payload.member_text("device_id"@);
    if !schema_accepts(route.source(), payload) {
        r matches Err(RouteError::Schema(e)) && e.message@ == route.source().rejection(
            payload,
        )
    } else if time is Some && !is_rfc3339(time->0) {
        r matches Err(RouteError::TimeIso(s)) && s@ == time->0
    } else if !enforce_topic_device_match {
        r == Ok::<MessageType, RouteError>(route.kind())
    } else if topic_dev is None {
        r matches Err(RouteError::TopicDevice)
    } else if payload_dev is None {
        r matches Err(RouteError::PayloadDevice)
    } else if topic_dev != payload_dev {
        r matches Err(RouteError::DeviceMismatch { topic_dev: a, payload_dev: b }) && a@
            == topic_dev->0 && b@ == payload_dev->0
    } else {
        r == Ok::<MessageType, RouteError>(route.kind())
    }
}

/// What a route makes of a message, where `read` is the message read into the
/// kind of the route, if it can be.
pub open spec fn processed(
    route: &Route,
    topic: Seq<char>,
    payload: JsonNode,
    enforce_topic_device_match: bool,
    read: Option<HandledMessage>,
    r: Result<HandledMessage, RouteError>,
) -> bool {
    match r {
        Ok(msg) => read == Some(msg) && route_result(
            route,
            topic,
            payload,
            enforce_topic_device_match,
            Ok(route.kind()),
        ),
        Err(RouteError::Read { kind, topic: t }) => {
            &&& read is None
            &&& t@ == topic
            &&& route_result(route, topic, payload, enforce_topic_device_match, Ok(kind))
        },
        Err(e) => route_result(route, topic, payload, enforce_topic_device_match, Err(e)),
    }
}

/// What passes a route under the rule that devices must match names the device
/// of its topic, and the schema of the route accepts it.
pub proof fn law_accepted_message_names_the_device_of_its_topic(
    route: Route,
    topic: Seq<char>,
    payload: JsonNode,
    r: Result<MessageType, RouteError>,
)
    requires
        route_result(&route, topic, payload, true, r),
        r is Ok,
    ensures
        r == Ok::<MessageType, RouteError>(route.kind()),
        schema_accepts(route.source(), payload),
        topic_device(route.device_level(), topic) is Some,
        payload.member_text("device_id"@) == topic_device(route.device_level(), topic),
{
}

/// Whatever passes a route has no time that is not as RFC 3339 has it, whether or
/// not devices must match, and the schema of the route accepts it.
pub proof fn law_accepted_message_has_no_malformed_time(
    route: Route,
    topic: Seq<char>,
    payload: JsonNode,
    enforce_topic_device_match: bool,
    r: Result<MessageType, RouteError>,
    time: Seq<char>,
)
    requires
        route_result(&route, topic, payload, enforce_topic_device_match, r),
        r is Ok,
        payload.member_text("time_iso"@) == Some(time),
    ensures
        is_rfc3339(time),
        schema_accepts(route.source(), payload),
{
}

/// A message that the schema of a route accepts, with no malformed time, and, if
/// devices must match, with the device of its topic, passes as one of the kind of
/// the route.
pub proof fn law_sound_message_passes(
    route: Route,
    topic: Seq<char>,
    payload: JsonNode,
    enforce_topic_device_match: bool,
    r: Result<MessageType, RouteError>,
)
    requires
        route_result(&route, topic, payload, enforce_topic_device_match, r),
        schema_accepts(route.source(), payload),
        payload.member_text("time_iso"@) matches Some(time) ==> is_rfc3339(time),
        enforce_topic_device_match ==> topic_device(route.device_level(), topic) is Some
            && payload.member_text("device_id"@) == topic_device(route.device_level(), topic),
    ensures
        r == Ok::<MessageType, RouteError>(route.kind()),
{
}

/// A message that does not pass a route gets as its error the first thing that
/// is wrong with it: the schema comes before the time, and the time before the
/// device.
pub proof fn law_error_says_what_is_wrong(
    route: Route,
    topic: Seq<char>,
    payload: JsonNode,
    enforce_topic_device_match: bool,
    e: RouteError,
)
    requires
        route_result(&route, topic, payload, enforce_topic_device_match, Err(e)),
    ensures
        e is Schema <==> !schema_accepts(route.source(), payload),
        e matches RouteError::Schema(rejected) ==> rejected.message@ == route.source().rejection(
            payload,
        ),
        e matches RouteError::TimeIso(s) ==> payload.member_text("time_iso"@) == Some(s@)
            && !is_rfc3339(s@),
        e is TopicDevice || e is PayloadDevice || e is DeviceMismatch
            ==> enforce_topic_device_match && (payload.member_text("time_iso"@) matches Some(time)
            ==> is_rfc3339(time)),
        e is TopicDevice ==> topic_device(route.device_level(), topic) is None,
        e is PayloadDevice ==> payload.member_text("device_id"@) is None,
        e matches RouteError::DeviceMismatch { topic_dev, payload_dev } ==> {
            &&& topic_device(route.device_level(), topic) == Some(topic_dev@)
            &&& payload.member_text("device_id"@) == Some(payload_dev@)
            &&& topic_dev@ != payload_dev@
        },
        !(e is NoRoute),
        !(e is Read),
{
}

/// What is read of a message counts only where the message passes: a message
/// that does not pass fails for the same reason, whatever it was read as, and one
/// that passes but could not be read fails for that.
pub proof fn law_only_passing_messages_are_read(
    route: Route,
    topic: Seq<char>,
    payload: JsonNode,
    enforce_topic_device_match: bool,
    read: Option<HandledMessage>,
    r: Result<HandledMessage, RouteError>,
    verdict: Result<MessageType, RouteError>,
)
    requires
        processed(&route, topic, payload, enforce_topic_device_match, read, r),
        route_result(&route, topic, payload, enforce_topic_device_match, verdict),
    ensures
        r is Ok ==> verdict is Ok && read is Some && r->Ok_0 == read->0,
        verdict is Err ==> r is Err && !(r->Err_0 is Read),
        verdict is Ok && read is None ==> (r matches Err(RouteError::Read { kind, topic: t })
            && kind == route.kind() && t@ == topic),
        verdict is Ok && read is Some ==> r is Ok,
{
}

impl Route {
    /// The kind of the messages of the route.
    pub closed spec fn kind(&self) -> MessageType {
        self.message_type
    }

    /// The levels of the pattern of the route.
    pub closed spec fn segments(&self) -> Seq<SegmentView> {
        self.pattern.spec_segments()
    }

    /// Which level of a topic names the device.
    pub closed spec fn device_level(&self) -> Option<nat> {
        self.pattern.spec_device_level()
    }

    /// The schema of the route.
    pub closed spec fn source(&self) -> SchemaSource {
        self.schema.source()
    }

    /// Whether the route takes messages on a topic.
    pub open spec fn takes(&self, topic: Seq<char>) -> bool {
        pattern_matches(self.segments(), topic_levels(topic))
    }

    /// Makes a route out of a pattern and a schema that were read.
    pub fn from_parts(message_type: MessageType, pattern: TopicPattern, schema: JsonSchema) -> (r:
        Self)
        ensures
            r.kind() == message_type,
            r.segments() == pattern.spec_segments(),
            r.device_level() == pattern.spec_device_level(),
            r.source() == schema.source(),
    {
        Route { message_type, pattern, schema }
    }

    /// Reads the pattern, then the schema, of a route.
    pub fn new(message_type: MessageType, schema_str: &str, topic_pattern: &str) -> (r: Result<
        Self,
        RouteLoadError,
    >)
        ensures
            match (pattern_fault(topic_pattern@), schema_fault(schema_str@)) {
                (None, None) => r matches Ok(route) && is_route_for(
                    route,
                    message_type,
                    schema_str@,
                    topic_pattern@,
                ),
                _ => r matches Err(e) && e.is_load_fault(schema_str@, topic_pattern@),
            },
    {
        let pattern = match TopicPattern::new(topic_pattern) {
            Ok(pattern) => pattern,
            Err(e) => {
                return Err(RouteLoadError::Pattern(e));
            },
        };
        match JsonSchema::new(schema_str) {
            Ok(schema) => Ok(Route::from_parts(message_type, pattern, schema)),
            Err(e) => Err(RouteLoadError::Schema(e)),
        }
    }

    /// Whether the route takes messages on this topic.
    pub fn matches(&self, topic: &str) -> (r: bool)
        ensures
            r == self.takes(topic@),
    {
        self.pattern.matches(topic)
    }

    /// Whether a message passes the route.
    pub fn validate(
        &self,
        topic: &str,
        payload: &Value,
        enforce_topic_device_match: bool,
    ) -> (r: Result<MessageType, RouteError>)
        ensures
            route_result(self, topic@, json_node(*payload), enforce_topic_device_match, r),
    {
        match self.schema.validate(payload) {
            Ok(()) => {},
            Err(e) => {
                return Err(RouteError::Schema(e));
            },
        }
        match self.validate_time_iso_rfc3339(payload) {
            Ok(()) => {},
            Err(e) => {
                return Err(e);
            },
        }
        if enforce_topic_device_match {
            match self.enforce_topic_payload_device_match(topic, payload) {
                Ok(()) => {},
                Err(e) => {
                    return Err(e);
                },
            }
        }
        Ok(self.message_type)
    }

    /// Whether a message passes the route, and the message. `read` is the message
    /// read into the kind of the route, if it can be.
    pub fn process(
        &self,
        topic: &str,
        payload: &Value,
        enforce_topic_device_match: bool,
        read: Option<HandledMessage>,
    ) -> (r: Result<HandledMessage, RouteError>)
        requires
            read matches Some(msg) ==> msg.spec_kind() == self.kind(),
        ensures
            r matches Ok(msg) ==> msg.spec_kind() == self.kind(),
            processed(self, topic@, json_node(*payload), enforce_topic_device_match, read, r),
    {
        match self.validate(topic, payload, enforce_topic_device_match) {
            Ok(kind) => match read {
                Some(msg) => Ok(msg),
                None => Err(RouteError::Read { kind, topic: String::from_str(topic) }),
            },
            Err(e) => Err(e),
        }
    }

    fn validate_time_iso_rfc3339(&self, payload: &Value) -> (r: Result<(), RouteError>)
        ensures
            match json_node(*payload).member_text("time_iso"@) {
                Some(time) => if is_rfc3339(time) {
                    r is Ok
                } else {
                    r matches Err(RouteError::TimeIso(s)) && s@ == time
                },
                None => r is Ok,
            },
    {
        if let Some(member) = json::get(payload, "time_iso") {
            if let Some(time) = json::as_str(member) {
                if !parses_as_rfc3339(time) {
                    return Err(RouteError::TimeIso(String::from_str(time)));
                }
            }
        }
        Ok(())
    }

    fn enforce_topic_payload_device_match(&self, topic: &str, payload: &Value) -> (r: Result<
        (),
        RouteError,
    >)
        ensures
            match (
                topic_device(self.device_level(), topic@),
                json_node(*payload).member_text("device_id"@),
            ) {
                (None, _) => r matches Err(RouteError::TopicDevice),
                (Some(_), None) => r matches Err(RouteError::PayloadDevice),
                (Some(topic_dev), Some(payload_dev)) => if topic_dev == payload_dev {
                    r is Ok
                } else {
                    r matches Err(RouteError::DeviceMismatch { topic_dev: a, payload_dev: b }) && a@
                        == topic_dev && b@ == payload_dev
                },
            },
    {
        let topic_dev = match self.pattern.device_id_from_topic(topic) {
            Some(dev) => dev,
            None => {
                return Err(RouteError::TopicDevice);
            },
        };
        let payload_dev = match json::get(payload, "device_id") {
            Some(member) => json::as_str(member),
            None => None,
        };
        match payload_dev {
            Some(payload_dev) => {
                if text::same_text(topic_dev, payload_dev) {
                    Ok(())
                } else {
                    Err(
                        RouteError::DeviceMismatch {
                            topic_dev: String::from_str(topic_dev),
                            payload_dev: String::from_str(payload_dev),
                        },
                    )
                }
            },
            None => Err(RouteError::PayloadDevice),
        }
    }
}

/// Holds configured routes and dispatches incoming messages.
pub struct Router {
    routes: Vec<Route>,
    strict: bool,
}

/// The first of some routes that takes messages on a topic, from route `i` on.
pub open spec fn first_route(routes: Seq<Route>, topic: Seq<char>, i: int) -> Option<Route>
    decreases routes.len() - i,
{
    if i < 0 || i >= routes.len() {
        None
    } else if routes[i].takes(topic) {
        Some(routes[i])
    } else {
        first_route(routes, topic, i + 1)
    }
}

impl Router {
    /// The routes, in the order in which they are tried.
    pub closed spec fn spec_routes(&self) -> Seq<Route> {
        self.routes@
    }

    /// Whether a message that no route takes is an error.
    pub closed spec fn spec_strict(&self) -> bool {
        self.strict
    }

    /// The route of a topic.
    pub open spec fn route_of(&self, topic: Seq<char>) -> Option<Route> {
        first_route(self.spec_routes(), topic, 0)
    }

    /// Whether messages on a topic are of this kind: there is a route for them,
    /// and it is one for such messages.
    pub open spec fn takes_kind(&self, topic: Seq<char>, kind: MessageType) -> bool {
        self.route_of(topic) matches Some(route) && route.kind() == kind
    }

    /// A strict router without routes.
    pub fn new() -> (r: Self)
        ensures
            r.spec_routes() == Seq::<Route>::empty(),
            r.spec_strict(),
    {
        Router { routes: Vec::new(), strict: true }
    }

    /// Sets the strictness.
    pub fn strict(self, strict: bool) -> (r: Self)
        ensures
            r.spec_routes() == self.spec_routes(),
            r.spec_strict() == strict,
    {
        Router { routes: self.routes, strict }
    }

    /// Adds a route after the others.
    pub fn add_route(self, route: Route) -> (r: Self)
        ensures
            r.spec_routes() == self.spec_routes().push(route),
            r.spec_strict() == self.spec_strict(),
    {
        let mut routes = self.routes;
        routes.push(route);
        Router { routes, strict: self.strict }
    }

    /// The first route that takes messages on a topic.
    fn find(&self, topic: &str) -> (r: Option<&Route>)
        ensures
            match r {
                Some(route) => self.route_of(topic@) == Some(*route),
                None => self.route_of(topic@) is None,
            },
    {
        let mut i: usize = 0;
        while i < self.routes.len()
            invariant
                i <= self.routes@.len(),
                self.route_of(topic@) == first_route(self.routes@, topic@, i as int),
            decreases self.routes@.len() - i,
        {
            if self.routes[i].matches(topic) {
                return Some(&self.routes[i]);
            }
            i = i + 1;
        }
        None
    }

    /// The kind of the messages on a topic, if a route takes them.
    pub fn message_type_for_topic(&self, topic: &str) -> (r: Option<MessageType>)
        ensures
            r == (match self.route_of(topic@) {
                Some(route) => Some(route.kind()),
                None => None,
            }),
    {
        match self.find(topic) {
            Some(route) => Some(route.message_type),
            None => None,
        }
    }

    /// Whether a message passes the route of its topic, and the kind of the
    /// message. Without a route, a strict router fails; any other gives `None`.
    pub fn validate_raw(
        &self,
        topic: &str,
        payload: &Value,
        enforce_topic_device_match: bool,
    ) -> (r: Result<Option<MessageType>, RouteError>)
        ensures
            router_result(self, topic@, json_node(*payload), enforce_topic_device_match, r),
    {
        if let Some(route) = self.find(topic) {
            return match route.validate(topic, payload, enforce_topic_device_match) {
                Ok(message_type) => Ok(Some(message_type)),
                Err(e) => Err(e),
            };
        }
        if self.strict {
            return Err(RouteError::NoRoute(String::from_str(topic)));
        }
        Ok(None)
    }

    /// Whether a message passes the route of its topic, and the message. `read`
    /// is the message read into the kind of that route, if it can be. Without a
    /// route, a strict router fails; any other gives `None`.
    pub fn process(
        &self,
        topic: &str,
        payload: &Value,
        enforce_topic_device_match: bool,
        read: Option<HandledMessage>,
    ) -> (r: Result<Option<HandledMessage>, RouteError>)
        requires
            read matches Some(msg) ==> self.takes_kind(topic@, msg.spec_kind()),
        ensures
            r matches Ok(Some(msg)) ==> self.takes_kind(topic@, msg.spec_kind()),
            router_processed(
                self,
                topic@,
                json_node(*payload),
                enforce_topic_device_match,
                read,
                r,
            ),
    {
        if let Some(route) = self.find(topic) {
            return match route.process(topic, payload, enforce_topic_device_match, read) {
                Ok(msg) => Ok(Some(msg)),
                Err(e) => Err(e),
            };
        }
        if self.strict {
            return Err(RouteError::NoRoute(String::from_str(topic)));
        }
        Ok(None)
    }
}

/// What a router makes of a message, where `read` is the message read into the
/// kind of its route, if it can be.
pub open spec fn router_processed(
    router: &Router,
    topic: Seq<char>,
    payload: JsonNode,
    enforce_topic_device_match: bool,
    read: Option<HandledMessage>,
    r: Result<Option<HandledMessage>, RouteError>,
) -> bool {
    match router.route_of(topic) {
        Some(route) => match r {
            Ok(Some(msg)) => processed(
                &route,
                topic,
                payload,
                enforce_topic_device_match,
                read,
                Ok(msg),
            ),
            Ok(None) => false,
            Err(e) => processed(&route, topic, payload, enforce_topic_device_match, read, Err(e)),
        },
        None => if router.spec_strict() {
            r matches Err(RouteError::NoRoute(s)) && s@ == topic
        } else {
            r == Ok::<Option<HandledMessage>, RouteError>(None)
        },
    }
}

/// The kind of the messages on a topic that is configured under this name, and
/// their schema; `None` if they get no route.
pub open spec fn route_for(name: Seq<char>) -> Option<(MessageType, Seq<char>)> {
    if name == "MQTT_TOPIC_SENSOR"@ {
        Some((MessageType::Sensor, SENSOR_SCHEMA@))
    } else if name == "MQTT_TOPIC_STATUS"@ {
        Some((MessageType::Status, STATUS_SCHEMA@))
    } else {
        None
    }
}

/// Whether there is a route, or no need of one, for a topic that is configured
/// under this name.
pub open spec fn route_loads(name: Seq<char>, topic: Seq<char>) -> bool {
    match route_for(name) {
        Some((_, schema)) => pattern_fault(topic) is None && schema_fault(schema) is None,
        None => true,
    }
}

/// Whether a route is the one for a topic and the kind of message on it.
pub open spec fn is_route_for(
    route: Route,
    message_type: MessageType,
    schema: Seq<char>,
    topic: Seq<char>,
) -> bool {
    &&& route.kind() == message_type
    &&& route.segments() == level_segments(topic_levels(topic))
    &&& route.device_level() == device_level(topic_levels(topic))
    &&& route.source() == schema_source(schema)
}

/// Whether these are the routes for some topics, in their order.
pub open spec fn are_routes_for(routes: Seq<Route>, topics: Environment) -> bool
    decreases topics.len(),
{
    if topics.len() == 0 {
        routes.len() == 0
    } else {
        match route_for(topics.last().0) {
            Some((message_type, schema)) => {
                &&& routes.len() > 0
                &&& is_route_for(routes.last(), message_type, schema, topics.last().1)
                &&& are_routes_for(routes.drop_last(), topics.drop_last())
            },
            None => are_routes_for(routes, topics.drop_last()),
        }
    }
}

/// Makes the strict router for the topics in a configuration. A topic for
/// sensors or for states of devices gets a route, any other gets none. The
/// first topic without a route that it should have is reported.
pub fn build_router(cfg: &Config) -> (r: Result<Router, RouteLoadError>)
    ensures
        match r {
            Ok(router) => {
                &&& router.spec_strict()
                &&& forall|i: int|
                    0 <= i < cfg.mqtt_topics@.len() ==> route_loads(
                        (#[trigger] cfg.mqtt_topics@[i]).0@,
                        cfg.mqtt_topics@[i].1@,
                    )
                &&& are_routes_for(router.spec_routes(), env_view(cfg.mqtt_topics@))
            },
            Err(e) => exists|i: int|
                0 <= i < cfg.mqtt_topics@.len() && !route_loads(
                    (#[trigger] cfg.mqtt_topics@[i]).0@,
                    cfg.mqtt_topics@[i].1@,
                ) && (forall|j: int|
                    0 <= j < i ==> route_loads(
                        (#[trigger] cfg.mqtt_topics@[j]).0@,
                        cfg.mqtt_topics@[j].1@,
                    )) && e.is_load_fault(
                    (route_for(cfg.mqtt_topics@[i].0@)->0).1,
                    cfg.mqtt_topics@[i].1@,
                ),
        },
{
    let mut router = Router::new().strict(true);
    let ghost topics = env_view(cfg.mqtt_topics@);
    let mut i: usize = 0;
    while i < cfg.mqtt_topics.len()
        invariant
            i <= cfg.mqtt_topics@.len(),
            topics == env_view(cfg.mqtt_topics@),
            router.spec_strict(),
            forall|j: int|
                0 <= j < i ==> route_loads(
                    (#[trigger] cfg.mqtt_topics@[j]).0@,
                    cfg.mqtt_topics@[j].1@,
                ),
            are_routes_for(router.spec_routes(), topics.take(i as int)),
        decreases cfg.mqtt_topics@.len() - i,
    {
        proof {
            assert(topics.take(i + 1).drop_last() =~= topics.take(i as int));
            assert(topics.take(i + 1).last() == (
                cfg.mqtt_topics@[i as int].0@,
                cfg.mqtt_topics@[i as int].1@,
            ));
        }
        let name = cfg.mqtt_topics[i].0.as_str();
        let topic = cfg.mqtt_topics[i].1.as_str();
        let loaded = if text::same_text(name, "MQTT_TOPIC_SENSOR") {
            Some(Route::new(MessageType::Sensor, SENSOR_SCHEMA, topic))
        } else if text::same_text(name, "MQTT_TOPIC_STATUS") {
            Some(Route::new(MessageType::Status, STATUS_SCHEMA, topic))
        } else {
            None
        };
        match loaded {
            Some(Ok(route)) => {
                let ghost before = router.spec_routes();
                router = router.add_route(route);
                proof {
                    assert(router.spec_routes().drop_last() =~= before);
                }
            },
            Some(Err(e)) => {
                proof {
                    assert(!route_loads(
                        cfg.mqtt_topics@[i as int].0@,
                        cfg.mqtt_topics@[i as int].1@,
                    ));
                }
                return Err(e);
            },
            None => {},
        }
        i = i + 1;
    }
    proof {
        assert(topics.take(i as int) =~= topics);
    }
    Ok(router)
}

/// What a router makes of a message.
pub open spec fn router_result(
    router: &Router,
    topic: Seq<char>,
    payload: JsonNode,
    enforce_topic_device_match: bool,
    r: Result<Option<MessageType>, RouteError>,
) -> bool {
    match router.route_of(topic) {
        Some(route) => match r {
            Ok(Some(message_type)) => route_result(
                &route,
                topic,
                payload,
                enforce_topic_device_match,
                Ok(message_type),
            ),
            Ok(None) => false,
            Err(e) => route_result(&route, topic, payload, enforce_topic_device_match, Err(e)),
        },
        None => if router.spec_strict() {
            r matches Err(RouteError::NoRoute(s)) && s@ == topic
        } else {
            r == Ok::<Option<MessageType>, RouteError>(None)
        },
    }
}

/// The route of a topic takes messages on that topic, and no route before it
/// does.
pub proof fn law_first_matching_route_wins(routes: Seq<Route>, topic: Seq<char>)
    ensures
        match first_route(routes, topic, 0) {
            Some(route) => exists|i: int|
                0 <= i < routes.len() && #[trigger] routes[i] == route && route.takes(topic) && (
                forall|j: int| 0 <= j < i ==> !(#[trigger] routes[j]).takes(topic)),
            None => forall|j: int| 0 <= j < routes.len() ==> !(#[trigger] routes[j]).takes(topic),
        },
{
    lemma_first_route(routes, topic, 0);
}

proof fn lemma_first_route(routes: Seq<Route>, topic: Seq<char>, from: int)
    requires
        0 <= from <= routes.len(),
        forall|j: int| 0 <= j < from ==> !(#[trigger] routes[j]).takes(topic),
    ensures
        match first_route(routes, topic, from) {
            Some(route) => exists|i: int|
                0 <= i < routes.len() && #[trigger] routes[i] == route && route.takes(topic) && (
                forall|j: int| 0 <= j < i ==> !(#[trigger] routes[j]).takes(topic)),
            None => forall|j: int| 0 <= j < routes.len() ==> !(#[trigger] routes[j]).takes(topic),
        },
    decreases routes.len() - from,
{
    if from < routes.len() && !routes[from].takes(topic) {
        lemma_first_route(routes, topic, from + 1);
    }
}

/// A topic of the sensors gets a route for messages of sensors, a topic of states
/// one for messages on states, and no other topic gets one.
pub proof fn law_only_sensors_and_states_get_routes(name: Seq<char>)
    ensures
        name == "MQTT_TOPIC_SENSOR"@ ==> (route_for(name) matches Some((kind, schema)) && kind
            is Sensor && schema == SENSOR_SCHEMA@),
        name == "MQTT_TOPIC_STATUS"@ ==> (route_for(name) matches Some((kind, schema)) && kind
            is Status && schema == STATUS_SCHEMA@),
        name != "MQTT_TOPIC_SENSOR"@ && name != "MQTT_TOPIC_STATUS"@ ==> route_for(name) is None,
{
    reveal_strlit("MQTT_TOPIC_SENSOR");
    reveal_strlit("MQTT_TOPIC_STATUS");
    assert("MQTT_TOPIC_SENSOR"@[12] != "MQTT_TOPIC_STATUS"@[12]);
}

/// Every topic of the sensors or of states that is configured has its route.
pub proof fn law_every_topic_has_its_route(routes: Seq<Route>, topics: Environment, i: int)
    requires
        are_routes_for(routes, topics),
        0 <= i < topics.len(),
    ensures
        topics[i].0 == "MQTT_TOPIC_SENSOR"@ ==> exists|k: int|
            0 <= k < routes.len() && is_route_for(
                #[trigger] routes[k],
                MessageType::Sensor,
                SENSOR_SCHEMA@,
                topics[i].1,
            ),
        topics[i].0 == "MQTT_TOPIC_STATUS"@ ==> exists|k: int|
            0 <= k < routes.len() && is_route_for(
                #[trigger] routes[k],
                MessageType::Status,
                STATUS_SCHEMA@,
                topics[i].1,
            ),
    decreases topics.len(),
{
    law_only_sensors_and_states_get_routes(topics[i].0);
    if route_for(topics[i].0) is Some {
        let (kind, schema) = route_for(topics[i].0)->0;
        lemma_topic_has_its_route(routes, topics, i, kind, schema);
    }
}

proof fn lemma_topic_has_its_route(
    routes: Seq<Route>,
    topics: Environment,
    i: int,
    kind: MessageType,
    schema: Seq<char>,
)
    requires
        are_routes_for(routes, topics),
        0 <= i < topics.len(),
        route_for(topics[i].0) == Some((kind, schema)),
    ensures
        exists|k: int|
            0 <= k < routes.len() && is_route_for(#[trigger] routes[k], kind, schema, topics[i].1),
    decreases topics.len(),
{
    let n = topics.len() - 1;
    if i == n {
        assert(is_route_for(routes[routes.len() - 1], kind, schema, topics[i].1));
    } else {
        let before = if route_for(topics.last().0) is Some {
            routes.drop_last()
        } else {
            routes
        };
        assert(topics.drop_last()[i] == topics[i]);
        lemma_topic_has_its_route(before, topics.drop_last(), i, kind, schema);
        let k = choose|k: int|
            0 <= k < before.len() && is_route_for(#[trigger] before[k], kind, schema, topics[i].1);
        assert(routes[k] == before[k]);
    }
}

/// Every route is that of a topic of the sensors or of states, and takes the
/// messages of its kind there.
pub proof fn law_every_route_is_that_of_a_topic(routes: Seq<Route>, topics: Environment, k: int)
    requires
        are_routes_for(routes, topics),
        0 <= k < routes.len(),
    ensures
        exists|i: int|
            0 <= i < topics.len() && routes[k].segments() == level_segments(
                topic_levels((#[trigger] topics[i]).1),
            ) && match routes[k].kind() {
                MessageType::Sensor => topics[i].0 == "MQTT_TOPIC_SENSOR"@,
                MessageType::Status => topics[i].0 == "MQTT_TOPIC_STATUS"@,
            },
    decreases topics.len(),
{
    let n = topics.len() - 1;
    law_only_sensors_and_states_get_routes(topics.last().0);
    let before = if route_for(topics.last().0) is Some {
        routes.drop_last()
    } else {
        routes
    };
    if k < before.len() {
        let front = topics.drop_last();
        law_every_route_is_that_of_a_topic(before, front, k);
        let i = choose|i: int|
            0 <= i < front.len() && before[k].segments() == level_segments(
                topic_levels((#[trigger] front[i]).1),
            ) && match before[k].kind() {
                MessageType::Sensor => front[i].0 == "MQTT_TOPIC_SENSOR"@,
                MessageType::Status => front[i].0 == "MQTT_TOPIC_STATUS"@,
            };
        assert(topics[i] == front[i]);
    } else {
        assert(topics[n] == topics.last());
        assert(routes[k] == routes.last());
    }
}

/// A message that no route takes fails a strict router, and is neither an error
/// nor a message to any other; one that a route takes gets the verdict of that
/// route.
pub proof fn law_router_goes_by_the_route(
    router: Router,
    topic: Seq<char>,
    payload: JsonNode,
    enforce_topic_device_match: bool,
    r: Result<Option<MessageType>, RouteError>,
)
    requires
        router_result(&router, topic, payload, enforce_topic_device_match, r),
    ensures
        r matches Ok(None) ==> !router.spec_strict(),
        (r matches Ok(None) || r matches Err(RouteError::NoRoute(_))) <==> router.route_of(topic)
            is None,
        r matches Ok(Some(kind)) ==> router.takes_kind(topic, kind),
{
}

/// The device that a topic names is the level at which the pattern has it; a
/// topic that does not go that far names none, nor does any if the pattern has no
/// such level.
pub proof fn law_device_is_a_level_of_the_topic(level: nat, topic: Seq<char>)
    ensures
        level < topic_levels(topic).len() ==> topic_device(Some(level), topic) == Some(
            topic_levels(topic)[level as int],
        ),
        level >= topic_levels(topic).len() ==> topic_device(Some(level), topic) is None,
        topic_device(None, topic) is None,
{
}

/// To enforce that devices match only refuses more: what passes then passes
/// otherwise too, and as the same kind.
pub proof fn law_enforcing_only_refuses_more(
    route: Route,
    topic: Seq<char>,
    payload: JsonNode,
    enforced: Result<MessageType, RouteError>,
    lenient: Result<MessageType, RouteError>,
)
    requires
        route_result(&route, topic, payload, true, enforced),
        route_result(&route, topic, payload, false, lenient),
    ensures
        enforced is Ok ==> lenient == enforced,
        lenient is Err ==> enforced is Err,
        lenient is Ok && enforced is Err ==> payload.member_text("device_id"@) is None
            || topic_device(route.device_level(), topic) != payload.member_text("device_id"@),
{
}

/// What `validate` lets pass, with or without enforced devices, is accepted by
/// the schema of the route and has no time that is malformed; and what is so, and
/// has the device of its topic where that is enforced, passes.
pub proof fn law_validated_messages_are_sound(
    route: Route,
    topic: &str,
    payload: Value,
    enforce_topic_device_match: bool,
    r: Result<MessageType, RouteError>,
)
    requires
        call_ensures(Route::validate, (&route, topic, &payload, enforce_topic_device_match), r),
    ensures
        ({
            let node = json_node(payload);
            let device = topic_device(route.device_level(), topic@);
            r is Ok <==> {
                &&& schema_accepts(route.source(), node)
                &&& node.member_text("time_iso"@) matches Some(time) ==> is_rfc3339(time)
                &&& enforce_topic_device_match ==> device is Some && node.member_text(
                    "device_id"@,
                ) == device
            }
        }),
        r matches Ok(kind) ==> kind == route.kind(),
{
}

/// The kind of the messages on a topic is that of the first route that takes it.
pub proof fn law_kind_of_a_topic_is_that_of_its_route(
    router: Router,
    topic: &str,
    kind: Option<MessageType>,
    i: int,
)
    requires
        call_ensures(Router::message_type_for_topic, (&router, topic), kind),
    ensures
        0 <= i < router.spec_routes().len() && router.spec_routes()[i].takes(topic@) && (forall|
            j: int,
        |
            0 <= j < i ==> !(#[trigger] router.spec_routes()[j]).takes(topic@)) ==> kind == Some(
            router.spec_routes()[i].kind(),
        ),
        (forall|j: int|
            0 <= j < router.spec_routes().len() ==> !(#[trigger] router.spec_routes()[j]).takes(
                topic@,
            )) ==> kind is None,
{
    let routes = router.spec_routes();
    if 0 <= i < routes.len() && routes[i].takes(topic@) && (forall|j: int|
        0 <= j < i ==> !(#[trigger] routes[j]).takes(topic@)) {
        lemma_first_taker(routes, topic@, 0, i);
    }
    if forall|j: int| 0 <= j < routes.len() ==> !(#[trigger] routes[j]).takes(topic@) {
        lemma_first_taker(routes, topic@, 0, routes.len() as int);
    }
}

proof fn lemma_first_taker(routes: Seq<Route>, topic: Seq<char>, from: int, at: int)
    requires
        0 <= from <= at <= routes.len(),
        forall|j: int| from <= j < at ==> !(#[trigger] routes[j]).takes(topic),
        at < routes.len() ==> routes[at].takes(topic),
    ensures
        first_route(routes, topic, from) == (if at < routes.len() {
            Some(routes[at])
        } else {
            None
        }),
    decreases at - from,
{
    if from < at {
        assert(!routes[from].takes(topic));
        lemma_first_taker(routes, topic, from + 1, at);
    }
}

/// The text of an error names what is wrong: the topic without a route, the time
/// that is none, and both devices where they differ.
pub proof fn law_route_errors_name_the_cause(
    topic: String,
    other: String,
    device: String,
)
    ensures
        RouteError::NoRoute(topic).text() == RouteError::NoRoute(other).text() ==> topic@ == other@,
        RouteError::TimeIso(topic).text() == RouteError::TimeIso(other).text() ==> topic@ == other@,
        (RouteError::DeviceMismatch { topic_dev: topic, payload_dev: device }).text() == (
        RouteError::DeviceMismatch { topic_dev: other, payload_dev: device }).text() ==> topic@
            == other@,
        (RouteError::DeviceMismatch { topic_dev: device, payload_dev: topic }).text() == (
        RouteError::DeviceMismatch { topic_dev: device, payload_dev: other }).text() ==> topic@
            == other@,
{
    let none = Seq::<char>::empty();
    let x = topic@;
    let y = other@;
    let d = device@;
    let a = "No route registered for topic: "@;
    let b = "time_iso not RFC3339: "@;
    let c = "device_id mismatch: topic has '"@;
    let m = "', payload has '"@;
    let e = "'"@;
    if RouteError::NoRoute(topic).text() == RouteError::NoRoute(other).text() {
        assert(a + x + none =~= a + x);
        assert(a + y + none =~= a + y);
        crate::text::lemma_between(a, x, y, none);
    }
    if RouteError::TimeIso(topic).text() == RouteError::TimeIso(other).text() {
        assert(b + x + none =~= b + x);
        assert(b + y + none =~= b + y);
        crate::text::lemma_between(b, x, y, none);
    }
    assert(c + x + m + d + e =~= c + x + (m + d + e));
    assert(c + y + m + d + e =~= c + y + (m + d + e));
    if c + x + m + d + e == c + y + m + d + e {
        crate::text::lemma_between(c, x, y, m + d + e);
    }
    if c + d + m + x + e == c + d + m + y + e {
        crate::text::lemma_between(c + d + m, x, y, e);
    }
}

/// A message without a route is an error to a strict router, which names the
/// topic, and nothing at all to any other; a message with a route gets the answer
/// of that route.
pub proof fn law_messages_without_route(
    router: Router,
    topic: &str,
    payload: Value,
    enforce_topic_device_match: bool,
    read: Option<HandledMessage>,
    verdict: Result<Option<MessageType>, RouteError>,
    message: Result<Option<HandledMessage>, RouteError>,
)
    requires
        call_ensures(
            Router::validate_raw,
            (&router, topic, &payload, enforce_topic_device_match),
            verdict,
        ),
        call_ensures(
            Router::process,
            (&router, topic, &payload, enforce_topic_device_match, read),
            message,
        ),
    ensures
        router.route_of(topic@) is None && !router.spec_strict() ==> {
            &&& verdict matches Ok(None)
            &&& message matches Ok(None)
        },
        router.route_of(topic@) is None && router.spec_strict() ==> {
            &&& verdict matches Err(RouteError::NoRoute(s)) && s@ == topic@
            &&& message matches Err(RouteError::NoRoute(t)) && t@ == topic@
        },
        router.route_of(topic@) is Some ==> {
            &&& !(verdict matches Ok(None))
            &&& !(message matches Ok(None))
            &&& verdict is Err ==> message is Err
            &&& message matches Ok(Some(msg)) ==> read == Some(msg)
            &&& verdict is Ok && read is Some ==> message is Ok
        },
{
    if router.route_of(topic@) is Some {
        let route = router.route_of(topic@)->0;
        let node = json_node(payload);
        let passed = match verdict {
            Ok(Some(kind)) => Ok::<MessageType, RouteError>(kind),
            Ok(None) => Ok(route.kind()),
            Err(e) => Err(e),
        };
        let answer = match message {
            Ok(Some(msg)) => Ok::<HandledMessage, RouteError>(msg),
            Ok(None) => Err(RouteError::TopicDevice),
            Err(e) => Err(e),
        };
        law_only_passing_messages_are_read(
            route,
            topic@,
            node,
            enforce_topic_device_match,
            read,
            answer,
            passed,
        );
    }
}

/// A route is made if and only if its pattern and its schema can be loaded, and
/// then has the kind and the pattern that it was given.
pub proof fn law_routes_are_as_given(
    kind: MessageType,
    schema: &str,
    pattern: &str,
    r: Result<Route, RouteLoadError>,
)
    requires
        call_ensures(Route::new, (kind, schema, pattern), r),
    ensures
        r is Ok <==> pattern_fault(pattern@) is None && schema_fault(schema@) is None,
        pattern_fault(pattern@) is Some ==> r matches Err(RouteLoadError::Pattern(_)),
        pattern_fault(pattern@) is None ==> match schema_fault(schema@) {
            Some(fault) => r matches Err(RouteLoadError::Schema(e)) && e == fault,
            None => r is Ok,
        },
        r matches Ok(route) ==> {
            &&& route.kind() == kind
            &&& route.source() == schema_source(schema@)
            &&& route.segments() == level_segments(topic_levels(pattern@))
            &&& route.device_level() == device_level(topic_levels(pattern@))
        },
{
}

/// The router of a configuration is strict, and takes messages of a sensor on each
/// topic that is configured for sensors, and messages on states on each that is
/// configured for states.
pub proof fn law_router_of_a_configuration(
    config: Config,
    r: Result<Router, RouteLoadError>,
    router: Router,
    i: int,
)
    requires
        call_ensures(build_router, (&config,), r),
        r == Ok::<Router, RouteLoadError>(router),
        0 <= i < config.mqtt_topics@.len(),
    ensures
        router.spec_strict(),
        config.mqtt_topics@[i].0@ == "MQTT_TOPIC_SENSOR"@ ==> exists|k: int|
            0 <= k < router.spec_routes().len() && is_route_for(
                #[trigger] router.spec_routes()[k],
                MessageType::Sensor,
                SENSOR_SCHEMA@,
                config.mqtt_topics@[i].1@,
            ),
        config.mqtt_topics@[i].0@ == "MQTT_TOPIC_STATUS"@ ==> exists|k: int|
            0 <= k < router.spec_routes().len() && is_route_for(
                #[trigger] router.spec_routes()[k],
                MessageType::Status,
                STATUS_SCHEMA@,
                config.mqtt_topics@[i].1@,
            ),
{
    let topics = env_view(config.mqtt_topics@);
    law_every_topic_has_its_route(router.spec_routes(), topics, i);
}

/// A topic of the sensors or of states loads if and only if it is a pattern and
/// the schema for it loads; any other topic needs no route.
pub proof fn law_only_routed_topics_must_load(name: Seq<char>, topic: Seq<char>)
    ensures
        name == "MQTT_TOPIC_SENSOR"@ ==> (route_loads(name, topic) <==> pattern_fault(topic) is None
            && schema_fault(SENSOR_SCHEMA@) is None),
        name == "MQTT_TOPIC_STATUS"@ ==> (route_loads(name, topic) <==> pattern_fault(topic) is None
            && schema_fault(STATUS_SCHEMA@) is None),
        name != "MQTT_TOPIC_SENSOR"@ && name != "MQTT_TOPIC_STATUS"@ ==> route_loads(name, topic),
{
    law_only_sensors_and_states_get_routes(name);
}

/// A configuration with a topic of the sensors or of states that is no pattern has
/// no router.
pub proof fn law_no_router_without_patterns(
    config: Config,
    r: Result<Router, RouteLoadError>,
    i: int,
)
    requires
        call_ensures(build_router, (&config,), r),
        0 <= i < config.mqtt_topics@.len(),
        config.mqtt_topics@[i].0@ == "MQTT_TOPIC_SENSOR"@ || config.mqtt_topics@[i].0@
            == "MQTT_TOPIC_STATUS"@,
        pattern_fault(config.mqtt_topics@[i].1@) is Some,
    ensures
        r is Err,
{
    law_only_routed_topics_must_load(config.mqtt_topics@[i].0@, config.mqtt_topics@[i].1@);
    assert(!route_loads(config.mqtt_topics@[i].0@, config.mqtt_topics@[i].1@));
}

} // verus!
