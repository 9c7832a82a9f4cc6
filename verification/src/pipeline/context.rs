//! What is known of a message on its way through the pipeline.

use std::time::Instant;

use serde_json::Value;
use vstd::prelude::*;
use vstd::utf8::{decode_utf8, valid_utf8};

use crate::infrastructure::json::{json_node, JsonNode};
use crate::model::messages::HandledMessage;
use crate::text;

verus! {

/// A moment on the monotonic clock.
#[verifier::external_type_specification]
#[verifier::external_body]
pub struct ExInstant(Instant);

/// `Instant::now`. Nothing is said of the moment.
#[verifier::external_body]
fn now() -> (moment: Instant) {
    Instant::now()
}

/// A message on its way through the pipeline.
#[derive(Debug)]
pub struct PipelineContext {
    topic: String,
    raw_payload: Vec<u8>,
    payload_utf8: Option<String>,
    payload_json: Option<Value>,
    handled_message: Option<HandledMessage>,
    line_protocol: Option<String>,
    dlq_reason: Option<String>,
    ignored_reason: Option<String>,
    started_at: Instant,
}

/// What a [`PipelineContext`] holds.
pub struct ContextView {
    pub topic: Seq<char>,
    pub raw_payload: Seq<u8>,
    pub payload_utf8: Option<Seq<char>>,
    pub payload_json: Option<JsonNode>,
    pub handled_message: Option<HandledMessage>,
    pub line_protocol: Option<Seq<char>>,
    pub dlq_reason: Option<Seq<char>>,
    pub ignored_reason: Option<Seq<char>>,
    pub started_at: Instant,
}

/// The view of an optional string.
pub open spec fn text_option(s: Option<String>) -> Option<Seq<char>> {
    match s {
        Some(s) => Some(s@),
        None => None,
    }
}

impl View for PipelineContext {
    type V = ContextView;

    closed spec fn view(&self) -> ContextView {
        ContextView {
            topic: self.topic@,
            raw_payload: self.raw_payload@,
            payload_utf8: text_option(self.payload_utf8),
            payload_json: match self.payload_json {
                Some(value) => Some(json_node(value)),
                None => None,
            },
            handled_message: self.handled_message,
            line_protocol: text_option(self.line_protocol),
            dlq_reason: text_option(self.dlq_reason),
            ignored_reason: text_option(self.ignored_reason),
            started_at: self.started_at,
        }
    }
}

impl ContextView {
    /// The message, marked for the dead-letter queue. The first reason stays.
    pub open spec fn marked_dlq(self, reason: Seq<char>) -> ContextView {
        match self.dlq_reason {
            Some(_) => self,
            None => ContextView { dlq_reason: Some(reason), ..self },
        }
    }

    /// The message, marked as ignored. The first reason stays.
    pub open spec fn marked_ignored(self, reason: Seq<char>) -> ContextView {
        match self.ignored_reason {
            Some(_) => self,
            None => ContextView { ignored_reason: Some(reason), ..self },
        }
    }

    /// The payload as it is put on the dead-letter queue.
    pub open spec fn dlq_payload(self) -> Seq<char> {
        match self.payload_utf8 {
            Some(payload) => payload,
            None => if valid_utf8(self.raw_payload) {
                decode_utf8(self.raw_payload)
            } else {
                "<non-utf8>"@
            },
        }
    }
}

/// What a stage needs and an earlier stage did not provide.
#[derive(Debug, Clone, Copy, PartialEq, Eq, Structural)]
pub enum ContextError {
    PayloadUtf8,
    PayloadJson,
    HandledMessage,
}

impl ContextError {
    pub fn message(&self) -> (s: String)
        ensures
            s@ == (match self {
                ContextError::PayloadUtf8 => "payload_utf8 missing in pipeline context"@,
                ContextError::PayloadJson => "payload_json missing in pipeline context"@,
                ContextError::HandledMessage => "handled_message missing in pipeline context"@,
            }),
    {
        match self {
            ContextError::PayloadUtf8 => {
                String::from_str("payload_utf8 missing in pipeline context")
            },
            ContextError::PayloadJson => {
                String::from_str("payload_json missing in pipeline context")
            },
            ContextError::HandledMessage => {
                String::from_str("handled_message missing in pipeline context")
            },
        }
    }
}

impl PipelineContext {
    /// A message as it came in.
    pub fn new(topic: &str, raw_payload: Vec<u8>) -> (ctx: Self)
        ensures
            ctx@.topic == topic@,
            ctx@.raw_payload == raw_payload@,
            ctx@.payload_utf8 is None,
            ctx@.payload_json is None,
            ctx@.handled_message is None,
            ctx@.line_protocol is None,
            ctx@.dlq_reason is None,
            ctx@.ignored_reason is None,
    {
        PipelineContext {
            topic: String::from_str(topic),
            raw_payload,
            payload_utf8: None,
            payload_json: None,
            handled_message: None,
            line_protocol: None,
            dlq_reason: None,
            ignored_reason: None,
            started_at: now(),
        }
    }

    pub fn topic(&self) -> (s: &str)
        ensures
            s@ == self@.topic,
    {
        self.topic.as_str()
    }

    pub fn raw_payload(&self) -> (bytes: &Vec<u8>)
        ensures
            bytes@ == self@.raw_payload,
    {
        &self.raw_payload
    }

    /// When the message came in.
    pub fn started_at(&self) -> (moment: Instant)
        ensures
            moment == self@.started_at,
    {
        self.started_at
    }

    pub fn set_payload_utf8(&mut self, payload: String)
        ensures
            final(self)@ == (ContextView { payload_utf8: Some(payload@), ..old(self)@ }),
    {
        self.payload_utf8 = Some(payload);
    }

    pub fn payload_utf8(&self) -> (r: Result<&str, ContextError>)
        ensures
            match self@.payload_utf8 {
                Some(payload) => r matches Ok(s) && s@ == payload,
                None => r matches Err(ContextError::PayloadUtf8),
            },
    {
        match &self.payload_utf8 {
            Some(payload) => Ok(payload.as_str()),
            None => Err(ContextError::PayloadUtf8),
        }
    }

    pub fn set_payload_json(&mut self, payload: Value)
        ensures
            final(self)@ == (ContextView {
                payload_json: Some(json_node(payload)),
                ..old(self)@
            }),
    {
        self.payload_json = Some(payload);
    }

    pub fn payload_json(&self) -> (r: Result<&Value, ContextError>)
        ensures
            match self@.payload_json {
                Some(node) => r matches Ok(value) && json_node(*value) == node,
                None => r matches Err(ContextError::PayloadJson),
            },
    {
        match &self.payload_json {
            Some(payload) => Ok(payload),
            None => Err(ContextError::PayloadJson),
        }
    }

    pub fn payload_json_mut(&mut self) -> (r: Result<&mut Value, ContextError>)
        ensures
            match r {
                Ok(value) => {
                    &&& old(self)@.payload_json == Some(json_node(*value))
                    &&& final(self)@ == (ContextView {
                        payload_json: Some(json_node(*final(value))),
                        ..old(self)@
                    })
                },
                Err(e) => {
                    &&& e is PayloadJson
                    &&& old(self)@.payload_json is None
                    &&& final(self)@ == old(self)@
                },
            },
    {
        match &mut self.payload_json {
            Some(payload) => Ok(payload),
            None => Err(ContextError::PayloadJson),
        }
    }

    pub fn set_handled_message(&mut self, msg: HandledMessage)
        ensures
            final(self)@ == (ContextView { handled_message: Some(msg), ..old(self)@ }),
    {
        self.handled_message = Some(msg);
    }

    pub fn handled_message(&self) -> (r: Result<&HandledMessage, ContextError>)
        ensures
            match self@.handled_message {
                Some(msg) => r matches Ok(m) && *m == msg,
                None => r matches Err(ContextError::HandledMessage),
            },
    {
        match &self.handled_message {
            Some(msg) => Ok(msg),
            None => Err(ContextError::HandledMessage),
        }
    }

    pub fn set_line_protocol(&mut self, line: String)
        ensures
            final(self)@ == (ContextView { line_protocol: Some(line@), ..old(self)@ }),
    {
        self.line_protocol = Some(line);
    }

    pub fn line_protocol(&self) -> (r: Option<&str>)
        ensures
            match self@.line_protocol {
                Some(line) => r matches Some(s) && s@ == line,
                None => r is None,
            },
    {
        match &self.line_protocol {
            Some(line) => Some(line.as_str()),
            None => None,
        }
    }

    /// Marks the message for the dead-letter queue. The first reason stays.
    pub fn mark_dlq(&mut self, reason: &str)
        ensures
            final(self)@ == old(self)@.marked_dlq(reason@),
    {
        if self.dlq_reason.is_none() {
            self.dlq_reason = Some(String::from_str(reason));
        }
    }

    pub fn dlq_reason(&self) -> (r: Option<&str>)
        ensures
            match self@.dlq_reason {
                Some(reason) => r matches Some(s) && s@ == reason,
                None => r is None,
            },
    {
        match &self.dlq_reason {
            Some(reason) => Some(reason.as_str()),
            None => None,
        }
    }

    pub fn should_publish_dlq(&self) -> (r: bool)
        ensures
            r == (self@.dlq_reason is Some),
    {
        self.dlq_reason.is_some()
    }

    /// Marks the message as ignored. The first reason stays.
    pub fn mark_ignored(&mut self, reason: &str)
        ensures
            final(self)@ == old(self)@.marked_ignored(reason@),
    {
        if self.ignored_reason.is_none() {
            self.ignored_reason = Some(String::from_str(reason));
        }
    }

    pub fn ignored_reason(&self) -> (r: Option<&str>)
        ensures
            match self@.ignored_reason {
                Some(reason) => r matches Some(s) && s@ == reason,
                None => r is None,
            },
    {
        match &self.ignored_reason {
            Some(reason) => Some(reason.as_str()),
            None => None,
        }
    }

    /// The payload as it is put on the dead-letter queue: the text that was
    /// decoded, or else the raw bytes if they are UTF-8.
    pub fn payload_for_dlq(&self) -> (s: String)
        ensures
            s@ == self@.dlq_payload(),
    {
        if let Some(payload) = &self.payload_utf8 {
            return payload.clone();
        }
        match text::utf8_text(self.raw_payload.as_slice()) {
            Ok(s) => String::from_str(s),
            Err(_) => String::from_str("<non-utf8>"),
        }
    }
}

/// Once a message is marked for the dead-letter queue, the reason never
/// changes.
pub proof fn law_first_dlq_reason_stays(ctx: ContextView, first: Seq<char>, later: Seq<char>)
    ensures
        ctx.marked_dlq(first).marked_dlq(later) == ctx.marked_dlq(first),
        ctx.marked_dlq(first).dlq_reason is Some,
{
}

/// Once a message is marked as ignored, the reason never changes.
pub proof fn law_first_ignored_reason_stays(ctx: ContextView, first: Seq<char>, later: Seq<char>)
    ensures
        ctx.marked_ignored(first).marked_ignored(later) == ctx.marked_ignored(first),
        ctx.marked_ignored(first).ignored_reason is Some,
{
}

/// Marking a message changes nothing of it but the reason, and that only if it
/// was not marked before.
pub proof fn law_marking_changes_only_the_reason(ctx: ContextView, reason: Seq<char>)
    ensures
        ctx.marked_dlq(reason) == (ContextView {
            dlq_reason: ctx.marked_dlq(reason).dlq_reason,
            ..ctx
        }),
        ctx.dlq_reason is None ==> ctx.marked_dlq(reason).dlq_reason == Some(reason),
        ctx.dlq_reason is Some ==> ctx.marked_dlq(reason).dlq_reason == ctx.dlq_reason,
        ctx.marked_ignored(reason) == (ContextView {
            ignored_reason: ctx.marked_ignored(reason).ignored_reason,
            ..ctx
        }),
        ctx.ignored_reason is None ==> ctx.marked_ignored(reason).ignored_reason == Some(reason),
        ctx.ignored_reason is Some ==> ctx.marked_ignored(reason).ignored_reason
            == ctx.ignored_reason,
{
}

/// A dead letter holds the text of the payload, where it was kept or can be had
/// from the bytes that came in, and otherwise says that there is none.
pub proof fn law_dead_letters_hold_the_text(ctx: ContextView)
    ensures
        ctx.payload_utf8 is Some ==> Some(ctx.dlq_payload()) == ctx.payload_utf8,
        ctx.payload_utf8 is None && valid_utf8(ctx.raw_payload) ==> ctx.dlq_payload()
            == decode_utf8(ctx.raw_payload),
        ctx.payload_utf8 is None && !valid_utf8(ctx.raw_payload) ==> ctx.dlq_payload()
            == "<non-utf8>"@,
{
}

} // verus!
