//! Decoding: from bytes to a JSON value.

use serde_json::Value;
use vstd::prelude::*;
use vstd::utf8::{decode_utf8, valid_utf8};

use crate::infrastructure::json;
use crate::infrastructure::json::{json_node, parsed_json, JsonNode};
use crate::pipeline::context::{ContextView, PipelineContext};
use crate::pipeline::stage::StageFlow;
use crate::text;

verus! {

/// Longer payloads are not decoded.
pub const MAX_PAYLOAD_BYTES: usize = 65536;

/// Why a payload cannot be decoded.
#[derive(Debug)]
pub enum DecodeError {
    /// It has this many bytes.
    TooLarge(usize),
    /// It is not UTF-8.
    Utf8(std::str::Utf8Error),
    /// It is this text, which is no JSON document.
    Json { payload_str: String, source: serde_json::Error },
}

/// What a payload is.
pub enum PayloadForm {
    TooLarge,
    NotUtf8,
    NotJson(Seq<char>),
    Json(JsonNode),
}

/// What a payload is. The size is looked at first, then the encoding.
pub open spec fn payload_form(payload: Seq<u8>) -> PayloadForm {
    if payload.len() > MAX_PAYLOAD_BYTES {
        PayloadForm::TooLarge
    } else if !valid_utf8(payload) {
        PayloadForm::NotUtf8
    } else {
        match parsed_json(decode_utf8(payload)) {
            Some(node) => PayloadForm::Json(node),
            None => PayloadForm::NotJson(decode_utf8(payload)),
        }
    }
}

/// What the stage leaves behind of a message whose payload is of this form.
pub open spec fn decoded_context(ctx: ContextView, form: PayloadForm) -> ContextView {
    match form {
        PayloadForm::TooLarge => ctx.marked_dlq(
            "payload too large: "@ + text::decimal(ctx.raw_payload.len()) + " bytes"@,
        ),
        PayloadForm::NotUtf8 => ctx.marked_dlq("payload not utf8"@),
        PayloadForm::NotJson(s) => (ContextView { payload_utf8: Some(s), ..ctx }).marked_dlq(
            "payload not valid JSON"@,
        ),
        PayloadForm::Json(node) => ContextView { payload_json: Some(node), ..ctx },
    }
}

/// The stage that decodes the payload of a message.
#[derive(Debug, Clone, Copy)]
pub struct DecodeStage;

impl DecodeStage {
    pub fn new() -> (stage: Self)
        ensures
            stage == DecodeStage,
    {
        DecodeStage
    }

    pub fn name(&self) -> (s: &'static str)
        ensures
            s@ == "decode"@,
    {
        "decode"
    }

    /// Decodes a payload.
    pub fn decode_payload(payload: &[u8]) -> (r: Result<Value, DecodeError>)
        ensures
            match payload_form(payload@) {
                PayloadForm::TooLarge => r matches Err(DecodeError::TooLarge(n)) && n
                    == payload@.len(),
                PayloadForm::NotUtf8 => r matches Err(DecodeError::Utf8(_)),
                PayloadForm::NotJson(s) => r matches Err(DecodeError::Json { payload_str, .. })
                    && payload_str@ == s,
                PayloadForm::Json(node) => r matches Ok(value) && json_node(value) == node,
            },
    {
        if payload.len() > MAX_PAYLOAD_BYTES {
            return Err(DecodeError::TooLarge(payload.len()));
        }
        let payload_str = match text::utf8_text(payload) {
            Ok(s) => s,
            Err(e) => {
                return Err(DecodeError::Utf8(e));
            },
        };
        match json::parse_json(payload_str) {
            Ok(value) => Ok(value),
            Err(source) => Err(
                DecodeError::Json { payload_str: String::from_str(payload_str), source },
            ),
        }
    }

    /// Decodes the payload of a message, or marks the message for the
    /// dead-letter queue.
    pub fn run(&self, ctx: &mut PipelineContext) -> (r: (StageFlow, &'static str))
        ensures
            final(ctx)@ == decoded_context(old(ctx)@, payload_form(old(ctx)@.raw_payload)),
            r.0 == (if payload_form(old(ctx)@.raw_payload) is Json {
                StageFlow::Continue
            } else {
                StageFlow::Stop
            }),
            r.1@ == (match payload_form(old(ctx)@.raw_payload) {
                PayloadForm::TooLarge => "too_large"@,
                PayloadForm::NotUtf8 => "non_utf8"@,
                PayloadForm::NotJson(_) => "invalid_json"@,
                PayloadForm::Json(_) => "success"@,
            }),
    {
        match DecodeStage::decode_payload(ctx.raw_payload().as_slice()) {
            Ok(payload_json) => {
                ctx.set_payload_json(payload_json);
                (StageFlow::Continue, "success")
            },
            Err(DecodeError::TooLarge(size)) => {
                let mut reason = String::from_str("payload too large: ");
                reason.append(text::decimal_text(size as u64).as_str());
                reason.append(" bytes");
                ctx.mark_dlq(reason.as_str());
                (StageFlow::Stop, "too_large")
            },
            Err(DecodeError::Utf8(_)) => {
                ctx.mark_dlq("payload not utf8");
                (StageFlow::Stop, "non_utf8")
            },
            Err(DecodeError::Json { payload_str, source: _ }) => {
                ctx.set_payload_utf8(payload_str);
                ctx.mark_dlq("payload not valid JSON");
                (StageFlow::Stop, "invalid_json")
            },
        }
    }
}

/// A payload that is too large, not UTF-8 or no JSON document is marked for the
/// dead-letter queue; any other is decoded and is not marked.
pub proof fn law_only_undecodable_payloads_are_marked(ctx: ContextView)
    requires
        ctx.dlq_reason is None,
    ensures
        ({
            let form = payload_form(ctx.raw_payload);
            let after = decoded_context(ctx, form);
            &&& after.dlq_reason is None <==> form is Json
            &&& form is Json ==> after.payload_json == parsed_json(decode_utf8(ctx.raw_payload))
            &&& form is Json ==> ctx.raw_payload.len() <= MAX_PAYLOAD_BYTES && valid_utf8(
                ctx.raw_payload,
            )
        }),
{
}

/// Decoding takes nothing away from what the dead-letter queue gets: it is the
/// payload, if that is UTF-8.
pub proof fn law_dead_letter_holds_the_payload(ctx: ContextView)
    requires
        ctx.payload_utf8 is None,
        valid_utf8(ctx.raw_payload),
    ensures
        decoded_context(ctx, payload_form(ctx.raw_payload)).dlq_payload() == decode_utf8(
            ctx.raw_payload,
        ),
{
}

/// A payload is too large if and only if it has more than 64 KiB. Of the others,
/// only one that is UTF-8 has a text, and only one whose text is a JSON document
/// is decoded.
pub proof fn law_payloads_have_at_most_64_kib(payload: Seq<u8>)
    ensures
        payload_form(payload) is TooLarge <==> payload.len() > 0x1_0000,
        payload.len() <= 0x1_0000 ==> (payload_form(payload) is NotUtf8 <==> !valid_utf8(payload)),
        payload.len() <= 0x1_0000 && valid_utf8(payload) ==> {
            &&& payload_form(payload) is Json <==> parsed_json(decode_utf8(payload)) is Some
            &&& payload_form(payload) is NotJson <==> parsed_json(decode_utf8(payload)) is None
            &&& payload_form(payload) matches PayloadForm::Json(node) ==> parsed_json(
                decode_utf8(payload),
            ) == Some(node)
        },
{
}

/// Decoding keeps the topic of a message and the bytes that came in, and leaves
/// it to later stages to read or to ignore it.
pub proof fn law_decoding_keeps_what_came_in(ctx: ContextView)
    ensures
        ({
            let after = decoded_context(ctx, payload_form(ctx.raw_payload));
            &&& after.topic == ctx.topic
            &&& after.raw_payload == ctx.raw_payload
            &&& after.handled_message == ctx.handled_message
            &&& after.ignored_reason == ctx.ignored_reason
            &&& after.line_protocol == ctx.line_protocol
        }),
{
}

/// A message goes on if and only if its payload could be decoded, and is marked
/// for the dead-letter queue if and only if it could not.
pub proof fn law_only_decoded_messages_go_on(
    stage: DecodeStage,
    ctx: &mut PipelineContext,
    r: (StageFlow, &'static str),
)
    requires
        call_ensures(DecodeStage::run, (&stage, ctx), r),
        ctx@.dlq_reason is None,
        ctx@.payload_json is None,
    ensures
        r.0 is Continue <==> {
            &&& old(ctx)@.raw_payload.len() <= 65536
            &&& valid_utf8(old(ctx)@.raw_payload)
            &&& parsed_json(decode_utf8(old(ctx)@.raw_payload)) is Some
        },
        final(ctx)@.dlq_reason is Some <==> r.0 is Stop,
        final(ctx)@.payload_json is Some <==> r.0 is Continue,
        r.0 is Continue ==> final(ctx)@.payload_json == parsed_json(
            decode_utf8(old(ctx)@.raw_payload),
        ),
{
}

/// The text of a payload that is no JSON document is kept, and the reason why a
/// payload was too large says how large it was.
pub proof fn law_reasons_of_undecodable_payloads(ctx: ContextView)
    requires
        ctx.dlq_reason is None,
    ensures
        ({
            let after = decoded_context(ctx, payload_form(ctx.raw_payload));
            &&& payload_form(ctx.raw_payload) is NotJson ==> after.payload_utf8 == Some(
                decode_utf8(ctx.raw_payload),
            )
            &&& payload_form(ctx.raw_payload) is Json ==> after.payload_utf8 == ctx.payload_utf8
            &&& payload_form(ctx.raw_payload) is TooLarge ==> {
                &&& after.dlq_reason matches Some(reason)
                &&& reason == "payload too large: "@ + text::decimal(ctx.raw_payload.len())
                    + " bytes"@
            }
        }),
{
}

} // verus!
