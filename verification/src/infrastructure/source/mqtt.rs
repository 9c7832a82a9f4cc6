//! An MQTT broker as the source of messages.

use serde_json::Value;
use vstd::prelude::*;

use crate::infrastructure::json;
use crate::infrastructure::json::{json_bytes, JsonNode};
use crate::infrastructure::source::IngestJob;

verus! {

/// What came from the connection to the broker, or from inside the service.
#[derive(Debug)]
pub enum SourceEvent {
    /// The shutdown signal changed to this value, or can no longer change.
    Shutdown { signalled: bool, closed: bool },
    /// The broker took the connection.
    Connected,
    /// The broker ended the connection.
    Disconnected,
    /// A message came.
    Message { topic: String, payload: Vec<u8> },
    /// Something else came.
    Other,
    /// The connection failed, for this reason.
    Failed(String),
}

/// What follows from a [`SourceEvent`].
#[derive(Debug)]
pub enum SourceAction {
    /// Wait for the next event.
    Poll,
    /// Hand this message to a worker, then wait for the next event.
    Dispatch(IngestJob),
    /// End without an error.
    Stop,
    /// End with this error, which has this cause.
    Fail { message: String, cause: String },
}

/// The state of the source: whether it is ready to be used.
#[derive(Debug)]
pub struct MqttSource {
    ready: bool,
}

impl MqttSource {
    pub closed spec fn spec_ready(&self) -> bool {
        self.ready
    }

    pub fn new(ready: bool) -> (s: Self)
        ensures
            s.spec_ready() == ready,
    {
        MqttSource { ready }
    }

    pub fn ready(&self) -> (b: bool)
        ensures
            b == self.spec_ready(),
    {
        self.ready
    }

    /// What follows from an event. The source is ready from the time that the
    /// broker took the connection until the connection ends or fails.
    pub fn on_event(&mut self, event: SourceEvent) -> (action: SourceAction)
        ensures
            final(self).spec_ready() == (match event {
                SourceEvent::Connected => true,
                SourceEvent::Disconnected => false,
                SourceEvent::Failed(_) => false,
                _ => old(self).spec_ready(),
            }),
            match event {
                SourceEvent::Shutdown { signalled, closed } => if signalled || closed {
                    action is Stop
                } else {
                    action is Poll
                },
                SourceEvent::Message { topic, payload } => action matches SourceAction::Dispatch(
                    job,
                ) && job.topic@ == topic@ && job.payload@ == payload@,
                SourceEvent::Failed(reason) => action matches SourceAction::Fail { message, cause }
                    && message@ == "MQTT poll failed"@ && cause@ == reason@,
                _ => action is Poll,
            },
    {
        match event {
            SourceEvent::Shutdown { signalled, closed } => {
                if closed || signalled {
                    SourceAction::Stop
                } else {
                    SourceAction::Poll
                }
            },
            SourceEvent::Connected => {
                self.ready = true;
                SourceAction::Poll
            },
            SourceEvent::Disconnected => {
                self.ready = false;
                SourceAction::Poll
            },
            SourceEvent::Message { topic, payload } => {
                SourceAction::Dispatch(IngestJob { topic, payload })
            },
            SourceEvent::Other => SourceAction::Poll,
            SourceEvent::Failed(cause) => {
                self.ready = false;
                SourceAction::Fail { message: String::from_str("MQTT poll failed"), cause }
            },
        }
    }
}

/// What a message on the dead-letter queue holds.
pub open spec fn dlq_envelope(
    received_at: Seq<char>,
    src_topic: Seq<char>,
    err: Seq<char>,
    payload: Seq<char>,
) -> JsonNode {
    JsonNode::Object(
        Map::<Seq<char>, JsonNode>::empty().insert(
            "received_at"@,
            JsonNode::Text(received_at),
        ).insert("src_topic"@, JsonNode::Text(src_topic)).insert(
            "error"@,
            JsonNode::Text(err),
        ).insert("payload_raw"@, JsonNode::Text(payload)),
    )
}

/// The bytes of a message on the dead-letter queue.
pub fn dlq_message(received_at: &str, src_topic: &str, payload: &str, err: &str) -> (bytes: Vec<u8>)
    ensures
        bytes@ == json_bytes(dlq_envelope(received_at@, src_topic@, err@, payload@)),
{
    let mut dlq: Value = json::empty_object();
    json::insert(&mut dlq, "received_at", json::text_value(String::from_str(received_at)));
    json::insert(&mut dlq, "src_topic", json::text_value(String::from_str(src_topic)));
    json::insert(&mut dlq, "error", json::text_value(String::from_str(err)));
    json::insert(&mut dlq, "payload_raw", json::text_value(String::from_str(payload)));
    match json::render_json(&dlq) {
        Ok(bytes) => bytes,
        Err(_) => Vec::new(),
    }
}

/// An envelope says what came, from where, when and what was wrong with it.
pub proof fn law_envelope_members(
    received_at: Seq<char>,
    src_topic: Seq<char>,
    err: Seq<char>,
    payload: Seq<char>,
)
    ensures
        ({
            let envelope = dlq_envelope(received_at, src_topic, err, payload);
            &&& envelope.member_text("received_at"@) == Some(received_at)
            &&& envelope.member_text("src_topic"@) == Some(src_topic)
            &&& envelope.member_text("error"@) == Some(err)
            &&& envelope.member_text("payload_raw"@) == Some(payload)
        }),
{
    reveal_strlit("received_at");
    reveal_strlit("src_topic");
    reveal_strlit("error");
    reveal_strlit("payload_raw");
    assert("received_at"@[0] == 'r');
    assert("payload_raw"@[0] == 'p');
    assert("src_topic"@[0] == 's');
    assert("error"@[0] == 'e');
}

/// A dead letter has four members and no other.
pub proof fn law_envelope_has_no_other_members(
    received_at: Seq<char>,
    src_topic: Seq<char>,
    err: Seq<char>,
    payload: Seq<char>,
    key: Seq<char>,
)
    requires
        key != "received_at"@,
        key != "src_topic"@,
        key != "error"@,
        key != "payload_raw"@,
    ensures
        dlq_envelope(received_at, src_topic, err, payload).member(key) is None,
{
}

/// The source is ready from when the broker took the connection until it ended or
/// failed, and nothing else changes that.
pub proof fn law_ready_while_connected(
    source: &mut MqttSource,
    event: SourceEvent,
    action: SourceAction,
)
    requires
        call_ensures(MqttSource::on_event, (source, event), action),
    ensures
        final(source).spec_ready() <==> event is Connected || (old(source).spec_ready() && !(
        event is Disconnected) && !(event is Failed)),
{
}

/// Every message that comes is handed to a worker as it is, and nothing else is.
/// The source ends only on a shutdown, without an error, or with a connection that
/// failed, with one.
pub proof fn law_messages_are_handed_on(
    source: &mut MqttSource,
    event: SourceEvent,
    action: SourceAction,
)
    requires
        call_ensures(MqttSource::on_event, (source, event), action),
    ensures
        action is Dispatch <==> event is Message,
        event matches SourceEvent::Message { topic, payload } ==> (action matches
            SourceAction::Dispatch(job) && job.topic@ == topic@ && job.payload@ == payload@),
        action is Stop <==> (event matches SourceEvent::Shutdown { signalled, closed } && (signalled
            || closed)),
        action is Fail <==> event is Failed,
{
}

} // verus!
