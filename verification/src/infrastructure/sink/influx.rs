//! InfluxDB as the destination of the log.

use reqwest::StatusCode;
use vstd::prelude::*;
use vstd::utf8::encode_utf8;

use crate::infrastructure::sink::point::{
    escaped, law_plain_text_is_not_escaped, law_sorted_is_an_ordering, tags_text, EscapeClass,
    FieldView, KeyedView, Point, PointView,
};
use crate::infrastructure::sink::SinkError;
use crate::infrastructure::wal::types::WalEvent;
use crate::model::messages::{HandledMessage, SensorMessage, StatusMessage};
use crate::text;
use crate::text::CharClass;

verus! {

/// How often a batch is sent before the sink gives up for now.
pub const MAX_WRITE_ATTEMPTS: u32 = 3;

/// The `Content-Type` of a batch.
pub const CONTENT_TYPE: &'static str = "text/plain; charset=utf-8";

/// The status code of an HTTP response.
#[verifier::external_type_specification]
#[verifier::external_body]
pub struct ExStatusCode(StatusCode);

/// The number of a status code.
pub uninterp spec fn status_number(status: StatusCode) -> u16;

/// The reason phrase that belongs to a status code.
pub uninterp spec fn reason_phrase(number: u16) -> Seq<char>;

/// `StatusCode::as_u16`: the number of the code, which has three digits.
#[verifier::external_body]
fn number_of(status: &StatusCode) -> (n: u16)
    ensures
        n == status_number(*status),
        100 <= n < 1000,
{
    status.as_u16()
}

/// The `Display` text of a `StatusCode`: its number, a space, and the phrase
/// that belongs to the number.
#[verifier::external_body]
fn status_text(status: &StatusCode) -> (s: String)
    ensures
        s@ == text::decimal(status_number(*status) as nat) + " "@ + reason_phrase(
            status_number(*status),
        ),
{
    status.to_string()
}

/// Whether a byte stands for itself in a query: ASCII letters and digits, and
/// `-`, `_`, `.`, `~`.
pub open spec fn is_unreserved(byte: u8) -> bool {
    ||| 48 <= byte <= 57
    ||| 65 <= byte <= 90
    ||| 97 <= byte <= 122
    ||| byte == 45
    ||| byte == 95
    ||| byte == 46
    ||| byte == 126
}

/// A digit of a hexadecimal number, in upper case.
pub open spec fn hex_digit(d: u8) -> char {
    if d < 10 {
        (48 + d) as char
    } else {
        (55 + d) as char
    }
}

/// Bytes as they stand in a query.
pub open spec fn percent_encoded(bytes: Seq<u8>) -> Seq<char>
    decreases bytes.len(),
{
    if bytes.len() == 0 {
        Seq::<char>::empty()
    } else {
        let byte = bytes.last();
        percent_encoded(bytes.drop_last()) + (if is_unreserved(byte) {
            seq![byte as char]
        } else {
            seq!['%', hex_digit(byte / 16), hex_digit(byte % 16)]
        })
    }
}

/// `urlencoding::encode`: every byte of the UTF-8 text that does not stand for
/// itself is written as a percent sign and two hexadecimal digits.
#[verifier::external_body]
fn url_encode(s: &str) -> (r: String)
    ensures
        r@ == percent_encoded(encode_utf8(s@)),
{
    urlencoding::encode(s).into_owned()
}

/// The point of a message of a sensor, before its tags and fields are put in
/// order.
pub open spec fn sensor_point(msg: &SensorMessage) -> PointView {
    PointView {
        measurement: "bme680"@,
        tags: seq![
            KeyedView { key: "device_id"@, value: msg.device_id@ },
            KeyedView { key: "room"@, value: msg.room@ },
            KeyedView { key: "device_class"@, value: msg.device_class@ },
            KeyedView { key: "fw_version"@, value: msg.fw_version@ },
        ],
        fields: seq![
            KeyedView { key: "temp_c"@, value: FieldView::Float(msg.data.temp_c.text@) },
            KeyedView { key: "rel_hum_perc"@, value: FieldView::Float(msg.data.rel_hum_perc.text@) },
            KeyedView { key: "pressure_hpa"@, value: FieldView::Float(msg.data.pressure_hpa.text@) },
            KeyedView { key: "gas_ohm"@, value: FieldView::Float(msg.data.gas_ohm.text@) },
            KeyedView { key: "iaq_score"@, value: FieldView::Float(msg.data.iaq_score.text@) },
            KeyedView { key: "iaq_text"@, value: FieldView::Str(msg.data.iaq_text@) },
            KeyedView { key: "dew_point_c"@, value: FieldView::Float(msg.data.dew_point_c.text@) },
            KeyedView { key: "heat_index_c"@, value: FieldView::Float(msg.data.heat_index_c.text@) },
            KeyedView { key: "altitude_m"@, value: FieldView::Float(msg.data.altitude_m.text@) },
            KeyedView { key: "time_valid"@, value: FieldView::Bool(msg.time_valid) },
        ],
        timestamp_ms: point_time(msg.time_valid, msg.time_ms),
    }
}

/// The point of a message on the state of a device, before its tags and fields
/// are put in order.
pub open spec fn status_point(msg: &StatusMessage) -> PointView {
    PointView {
        measurement: "device_status"@,
        tags: seq![
            KeyedView { key: "device_id"@, value: msg.device_id@ },
            KeyedView { key: "device_class"@, value: msg.device_class@ },
            KeyedView { key: "fw_version"@, value: msg.fw_version@ },
            KeyedView { key: "ip"@, value: msg.ip@ },
        ],
        fields: seq![
            KeyedView { key: "time_iso"@, value: FieldView::Str(msg.time_iso@) },
            KeyedView { key: "time_valid"@, value: FieldView::Bool(msg.time_valid) },
            KeyedView { key: "uptime"@, value: FieldView::Int(msg.uptime) },
            KeyedView { key: "free_mem"@, value: FieldView::Int(msg.free_mem) },
            KeyedView { key: "ssid"@, value: FieldView::Str(msg.ssid@) },
            KeyedView { key: "rssi"@, value: FieldView::Int(msg.rssi) },
        ],
        timestamp_ms: point_time(msg.time_valid, msg.time_ms),
    }
}

/// The time of a point: that of the message, if it is valid and after the
/// epoch.
pub open spec fn point_time(time_valid: bool, time_ms: i64) -> Option<i64> {
    if time_valid && time_ms > 0 {
        Some(time_ms)
    } else {
        None
    }
}

/// The point of a message of a sensor.
pub fn sensor_to_point(msg: &SensorMessage) -> (p: Point)
    ensures
        p@ == sensor_point(msg).ordered(),
{
    let mut b = Point::build("bme680")
        .tag("device_id", msg.device_id.as_str())
        .tag("room", msg.room.as_str())
        .tag("device_class", msg.device_class.as_str())
        .tag("fw_version", msg.fw_version.as_str())
        .field_f64("temp_c", msg.data.temp_c.text.as_str())
        .field_f64("rel_hum_perc", msg.data.rel_hum_perc.text.as_str())
        .field_f64("pressure_hpa", msg.data.pressure_hpa.text.as_str())
        .field_f64("gas_ohm", msg.data.gas_ohm.text.as_str())
        .field_f64("iaq_score", msg.data.iaq_score.text.as_str())
        .field_str("iaq_text", msg.data.iaq_text.as_str())
        .field_f64("dew_point_c", msg.data.dew_point_c.text.as_str())
        .field_f64("heat_index_c", msg.data.heat_index_c.text.as_str())
        .field_f64("altitude_m", msg.data.altitude_m.text.as_str())
        .field_bool("time_valid", msg.time_valid);
    if msg.time_valid && msg.time_ms > 0 {
        b = b.timestamp_ms(msg.time_ms);
    }
    proof {
        assert(b@.tags =~= sensor_point(msg).tags);
        assert(b@.fields =~= sensor_point(msg).fields);
        assert(b@ =~= sensor_point(msg));
    }
    b.build()
}

/// The point of a message on the state of a device.
pub fn status_to_point(msg: &StatusMessage) -> (p: Point)
    ensures
        p@ == status_point(msg).ordered(),
{
    let mut b = Point::build("device_status")
        .tag("device_id", msg.device_id.as_str())
        .tag("device_class", msg.device_class.as_str())
        .tag("fw_version", msg.fw_version.as_str())
        .tag("ip", msg.ip.as_str())
        .field_str("time_iso", msg.time_iso.as_str())
        .field_bool("time_valid", msg.time_valid)
        .field_i64("uptime", msg.uptime)
        .field_i64("free_mem", msg.free_mem)
        .field_str("ssid", msg.ssid.as_str())
        .field_i64("rssi", msg.rssi);
    if msg.time_valid && msg.time_ms > 0 {
        b = b.timestamp_ms(msg.time_ms);
    }
    proof {
        assert(b@.tags =~= status_point(msg).tags);
        assert(b@.fields =~= status_point(msg).fields);
        assert(b@ =~= status_point(msg));
    }
    b.build()
}

/// Whether a point has this tag.
pub open spec fn has_tag(point: PointView, key: Seq<char>, value: Seq<char>) -> bool {
    point.tags.to_multiset().contains((KeyedView { key, value }))
}

/// Whether a point has this field.
pub open spec fn has_field(point: PointView, key: Seq<char>, value: FieldView) -> bool {
    point.fields.to_multiset().contains((KeyedView { key, value }))
}

/// The point of a message has a time if and only if the time of the message is
/// valid and over 0, and then it is that time. Without one, the database takes
/// its own.
pub proof fn law_points_have_only_valid_times(sensor: SensorMessage, status: StatusMessage)
    ensures
        sensor_point(&sensor).ordered().timestamp_ms is Some <==> sensor.time_valid
            && sensor.time_ms > 0,
        sensor_point(&sensor).ordered().timestamp_ms matches Some(t) ==> t == sensor.time_ms,
        status_point(&status).ordered().timestamp_ms is Some <==> status.time_valid
            && status.time_ms > 0,
        status_point(&status).ordered().timestamp_ms matches Some(t) ==> t == status.time_ms,
{
}

/// The point of a message of a sensor has each part of the message under its own
/// name: four tags, ten fields, and nothing else.
pub proof fn law_sensor_point_has_each_part(msg: SensorMessage)
    ensures
        ({
            let p = sensor_point(&msg).ordered();
            &&& p.measurement == "bme680"@
            &&& p.tags.len() == 4
            &&& has_tag(p, "device_id"@, msg.device_id@)
            &&& has_tag(p, "room"@, msg.room@)
            &&& has_tag(p, "device_class"@, msg.device_class@)
            &&& has_tag(p, "fw_version"@, msg.fw_version@)
            &&& p.fields.len() == 10
            &&& has_field(p, "temp_c"@, FieldView::Float(msg.data.temp_c.text@))
            &&& has_field(p, "rel_hum_perc"@, FieldView::Float(msg.data.rel_hum_perc.text@))
            &&& has_field(p, "pressure_hpa"@, FieldView::Float(msg.data.pressure_hpa.text@))
            &&& has_field(p, "gas_ohm"@, FieldView::Float(msg.data.gas_ohm.text@))
            &&& has_field(p, "iaq_score"@, FieldView::Float(msg.data.iaq_score.text@))
            &&& has_field(p, "iaq_text"@, FieldView::Str(msg.data.iaq_text@))
            &&& has_field(p, "dew_point_c"@, FieldView::Float(msg.data.dew_point_c.text@))
            &&& has_field(p, "heat_index_c"@, FieldView::Float(msg.data.heat_index_c.text@))
            &&& has_field(p, "altitude_m"@, FieldView::Float(msg.data.altitude_m.text@))
            &&& has_field(p, "time_valid"@, FieldView::Bool(msg.time_valid))
        }),
{
    let p = sensor_point(&msg);
    law_sorted_is_an_ordering(p.tags);
    law_sorted_is_an_ordering(p.fields);
    lemma_members(p.tags);
    lemma_members(p.fields);
    p.tags.to_multiset_ensures();
    p.fields.to_multiset_ensures();
    p.ordered().tags.to_multiset_ensures();
    p.ordered().fields.to_multiset_ensures();
    assert(p.tags[0].key == "device_id"@ && p.tags[1].key == "room"@);
    assert(p.tags[2].key == "device_class"@ && p.tags[3].key == "fw_version"@);
    assert(p.fields[0].key == "temp_c"@ && p.fields[1].key == "rel_hum_perc"@);
    assert(p.fields[2].key == "pressure_hpa"@ && p.fields[3].key == "gas_ohm"@);
    assert(p.fields[4].key == "iaq_score"@ && p.fields[5].key == "iaq_text"@);
    assert(p.fields[6].key == "dew_point_c"@ && p.fields[7].key == "heat_index_c"@);
    assert(p.fields[8].key == "altitude_m"@ && p.fields[9].key == "time_valid"@);
}

/// The point of a message on the state of a device has each part of the message
/// under its own name: four tags, six fields, and nothing else.
pub proof fn law_status_point_has_each_part(msg: StatusMessage)
    ensures
        ({
            let p = status_point(&msg).ordered();
            &&& p.measurement == "device_status"@
            &&& p.tags.len() == 4
            &&& has_tag(p, "device_id"@, msg.device_id@)
            &&& has_tag(p, "device_class"@, msg.device_class@)
            &&& has_tag(p, "fw_version"@, msg.fw_version@)
            &&& has_tag(p, "ip"@, msg.ip@)
            &&& p.fields.len() == 6
            &&& has_field(p, "time_iso"@, FieldView::Str(msg.time_iso@))
            &&& has_field(p, "time_valid"@, FieldView::Bool(msg.time_valid))
            &&& has_field(p, "uptime"@, FieldView::Int(msg.uptime))
            &&& has_field(p, "free_mem"@, FieldView::Int(msg.free_mem))
            &&& has_field(p, "ssid"@, FieldView::Str(msg.ssid@))
            &&& has_field(p, "rssi"@, FieldView::Int(msg.rssi))
        }),
{
    let p = status_point(&msg);
    law_sorted_is_an_ordering(p.tags);
    law_sorted_is_an_ordering(p.fields);
    lemma_members(p.tags);
    lemma_members(p.fields);
    p.tags.to_multiset_ensures();
    p.fields.to_multiset_ensures();
    p.ordered().tags.to_multiset_ensures();
    p.ordered().fields.to_multiset_ensures();
    assert(p.tags[0].key == "device_id"@ && p.tags[1].key == "device_class"@);
    assert(p.tags[2].key == "fw_version"@ && p.tags[3].key == "ip"@);
    assert(p.fields[0].key == "time_iso"@ && p.fields[1].key == "time_valid"@);
    assert(p.fields[2].key == "uptime"@ && p.fields[3].key == "free_mem"@);
    assert(p.fields[4].key == "ssid"@ && p.fields[5].key == "rssi"@);
}

/// What stands in a sequence is among its members.
proof fn lemma_members<V>(items: Seq<KeyedView<V>>)
    ensures
        forall|i: int|
            0 <= i < items.len() ==> items.to_multiset().contains(#[trigger] items[i]),
{
    items.to_multiset_ensures();
    assert forall|i: int| 0 <= i < items.len() implies items.to_multiset().contains(
        #[trigger] items[i],
    ) by {
        assert(items.contains(items[i]));
    }
}

/// The line of a message is that of its own kind, and starts with the name of the
/// measurement of that kind.
pub proof fn law_line_is_that_of_the_kind(message: HandledMessage)
    ensures
        match message {
            HandledMessage::Sensor(msg) => "bme680,"@.is_prefix_of(message_line(&message)),
            HandledMessage::Status(msg) => "device_status,"@.is_prefix_of(message_line(&message)),
        },
{
    reveal_strlit("bme680");
    reveal_strlit("bme680,");
    reveal_strlit("device_status");
    reveal_strlit("device_status,");
    reveal_strlit(",");
    match message {
        HandledMessage::Sensor(msg) => {
            let p = sensor_point(&msg);
            law_sensor_point_has_each_part(msg);
            law_plain_text_is_not_escaped("bme680"@, EscapeClass::Measurement);
            lemma_tags_start_with_comma(p.ordered().tags);
            assert("bme680,"@ =~= "bme680"@ + ","@);
            assert(p.ordered().line().take(7) =~= "bme680,"@);
        },
        HandledMessage::Status(msg) => {
            let p = status_point(&msg);
            law_status_point_has_each_part(msg);
            law_plain_text_is_not_escaped("device_status"@, EscapeClass::Measurement);
            lemma_tags_start_with_comma(p.ordered().tags);
            assert("device_status,"@ =~= "device_status"@ + ","@);
            assert(p.ordered().line().take(14) =~= "device_status,"@);
        },
    }
}

proof fn lemma_tags_start_with_comma(tags: Seq<KeyedView<Seq<char>>>)
    requires
        tags.len() > 0,
    ensures
        tags_text(tags).len() > 0,
        tags_text(tags)[0] == ',',
    decreases tags.len(),
{
    reveal_strlit(",");
    if tags.len() > 1 {
        lemma_tags_start_with_comma(tags.drop_last());
    } else {
        assert(tags_text(tags.drop_last()).len() == 0);
    }
    let tag = tags.last();
    let front = tags_text(tags.drop_last()) + ","@;
    assert(front[0] == ',');
    assert((front + escaped(tag.key, EscapeClass::Key))[0] == ',');
    assert((front + escaped(tag.key, EscapeClass::Key) + "="@)[0] == ',');
}

/// The line of a message.
pub open spec fn message_line(message: &HandledMessage) -> Seq<char> {
    match message {
        HandledMessage::Sensor(msg) => sensor_point(msg).ordered().line(),
        HandledMessage::Status(msg) => status_point(msg).ordered().line(),
    }
}

/// Renders canonical messages as InfluxDB line protocol.
#[derive(Debug, Clone, Copy)]
pub struct InfluxEncoder;

impl InfluxEncoder {
    /// Appends the line of a message to `out`.
    pub fn encode(&self, message: &HandledMessage, out: &mut String)
        ensures
            final(out)@ == old(out)@ + message_line(message),
    {
        match message {
            HandledMessage::Sensor(msg) => sensor_to_point(msg).write_line_protocol(out),
            HandledMessage::Status(msg) => status_to_point(msg).write_line_protocol(out),
        }
    }
}

/// The payloads of some events as the body of a request: a line break before
/// each one that does not come first.
pub open spec fn body_of(payloads: Seq<Seq<char>>) -> Seq<char>
    decreases payloads.len(),
{
    if payloads.len() == 0 {
        Seq::<char>::empty()
    } else {
        let before = body_of(payloads.drop_last());
        if before.len() == 0 {
            payloads.last()
        } else {
            before + "\n"@ + payloads.last()
        }
    }
}

/// The payloads of some events.
pub open spec fn payloads(events: Seq<WalEvent>) -> Seq<Seq<char>> {
    events.map_values(|e: WalEvent| e.payload@)
}

/// The body of the request that writes a batch.
pub fn build_body(batch: &[WalEvent]) -> (body: String)
    ensures
        body@ == body_of(payloads(batch@)),
{
    let mut body = String::new();
    let mut empty: bool = true;
    let ghost all = payloads(batch@);
    let mut i: usize = 0;
    proof {
        assert(body@ =~= body_of(all.take(0)));
    }
    while i < batch.len()
        invariant
            i <= batch@.len(),
            all == payloads(batch@),
            empty == (body@.len() == 0),
            body@ == body_of(all.take(i as int)),
        decreases batch@.len() - i,
    {
        proof {
            assert(all.take(i + 1).drop_last() =~= all.take(i as int));
            assert(all.take(i + 1).last() == batch@[i as int].payload@);
        }
        let ghost before = body@;
        if !empty {
            body.append("\n");
        }
        body.append(batch[i].payload.as_str());
        proof {
            reveal_strlit("\n");
            if empty {
                assert(before + batch@[i as int].payload@ =~= batch@[i as int].payload@);
            }
        }
        empty = empty && text::chars_of(batch[i].payload.as_str()).len() == 0;
        i = i + 1;
    }
    proof {
        assert(all.take(i as int) =~= all);
    }
    body
}

/// The body of a batch without empty payloads is its payloads, one on a line.
pub proof fn law_body_is_one_line_per_event(lines: Seq<Seq<char>>)
    requires
        forall|i: int| 0 <= i < lines.len() ==> (#[trigger] lines[i]).len() > 0,
    ensures
        body_of(lines) == text::join_with(lines, "\n"@),
    decreases lines.len(),
{
    if lines.len() > 0 {
        let before = lines.drop_last();
        assert forall|i: int| 0 <= i < before.len() implies (#[trigger] before[i]).len() > 0 by {
            assert(before[i] == lines[i]);
        }
        law_body_is_one_line_per_event(before);
        if before.len() > 0 {
            lemma_body_nonempty(before);
        }
    }
}

proof fn lemma_body_nonempty(lines: Seq<Seq<char>>)
    requires
        lines.len() > 0,
        forall|i: int| 0 <= i < lines.len() ==> (#[trigger] lines[i]).len() > 0,
    ensures
        body_of(lines).len() > 0,
{
    assert(lines[lines.len() - 1].len() > 0);
}

/// Whether a response with this number means that the batch can never be
/// written: a client error, but for a timeout and too many requests.
pub open spec fn permanent_number(n: u16) -> bool {
    400 <= n < 500 && n != 408 && n != 429
}

/// Whether a response that is no success means that the batch can never be
/// written.
pub fn is_permanent_status(status: StatusCode) -> (r: bool)
    ensures
        r <==> 400 <= status_number(status) <= 499 && status_number(status) != 408
            && status_number(status) != 429,
        r == permanent_number(status_number(status)),
{
    let n: u16 = number_of(&status);
    400 <= n && n < 500 && n != 408 && n != 429
}

/// The message of a response that is no success.
pub open spec fn write_error_text(number: u16, body: Seq<char>) -> Seq<char> {
    "Influx write failed: status="@ + (text::decimal(number as nat) + " "@ + reason_phrase(number))
        + " body="@ + body
}

/// The message of a response that is no success.
pub fn http_write_error(status: StatusCode, body: &str) -> (s: String)
    ensures
        s@ == write_error_text(status_number(status), body@),
{
    let mut s = String::from_str("Influx write failed: status=");
    s.append(status_text(&status).as_str());
    s.append(" body=");
    s.append(body);
    s
}

/// The endpoint that batches are written to.
#[derive(Debug)]
pub struct InfluxSink {
    write_url: String,
}

/// What came of a request.
#[derive(Debug)]
pub enum SendResult {
    /// There was no response, for this reason.
    Failed(String),
    /// The response had this status and body.
    Response { status: StatusCode, body: String },
}

/// A batch that is being sent, for the first time or again.
#[derive(Debug)]
pub struct WriteAttempt {
    body: String,
    attempt: u32,
}

/// What follows from a request.
#[derive(Debug)]
pub enum AfterSend {
    /// This is the outcome.
    Done(Result<(), SinkError>),
    /// Wait this many seconds, then send the batch again.
    Retry { delay_secs: u64, attempt: WriteAttempt, cause: String },
}

/// How many seconds to wait before the attempt number `attempt`, the first one
/// being number 0.
pub open spec fn delay_before(attempt: nat) -> nat {
    if attempt == 0 {
        0
    } else if attempt == 1 {
        1
    } else {
        2
    }
}

/// Whether a number is that of a success.
pub open spec fn success_number(n: u16) -> bool {
    200 <= n < 300
}

impl InfluxSink {
    /// The URL that batches are sent to.
    pub closed spec fn spec_write_url(&self) -> Seq<char> {
        self.write_url@
    }

    /// The sink of a bucket. The names of the organization and the bucket are
    /// encoded, and slashes at the end of the URL do not count.
    pub fn new(url: &str, org: &str, bucket: &str) -> (sink: Self)
        ensures
            sink.spec_write_url() == text::trim_end(url@, CharClass::Slash)
                + "/api/v2/write?org="@ + percent_encoded(encode_utf8(org@)) + "&bucket="@
                + percent_encoded(encode_utf8(bucket@)) + "&precision=ms"@,
    {
        let mut write_url = text::trim_tail(url, CharClass::Slash);
        write_url.append("/api/v2/write?org=");
        write_url.append(url_encode(org).as_str());
        write_url.append("&bucket=");
        write_url.append(url_encode(bucket).as_str());
        write_url.append("&precision=ms");
        InfluxSink { write_url }
    }

    pub fn write_url(&self) -> (s: &str)
        ensures
            s@ == self.spec_write_url(),
    {
        self.write_url.as_str()
    }

    /// The `Authorization` of a request.
    pub fn authorization(token: &str) -> (s: String)
        ensures
            s@ == "Token "@ + token@,
    {
        let mut s = String::from_str("Token ");
        s.append(token);
        s
    }

    /// Starts to write a batch. An empty batch needs no request.
    pub fn begin(batch: &[WalEvent]) -> (r: Option<WriteAttempt>)
        ensures
            match r {
                Some(attempt) => batch@.len() > 0 && attempt.number() == 0 && attempt.spec_body()
                    == body_of(payloads(batch@)),
                None => batch@.len() == 0,
            },
    {
        if batch.len() == 0 {
            None
        } else {
            Some(WriteAttempt { body: build_body(batch), attempt: 0 })
        }
    }
}

/// What becomes of a batch.
pub enum WriteOutcome {
    /// It was stored.
    Stored,
    /// It can never be stored.
    Permanent,
    /// It is sent again after this many seconds.
    Again(nat),
    /// It was sent often enough for now.
    GivenUp,
}

/// What follows from the result of the attempt after `before` others.
pub open spec fn write_outcome(before: nat, result: SendResult) -> WriteOutcome {
    let number = match result {
        SendResult::Response { status, .. } => Some(status_number(status)),
        SendResult::Failed(_) => None,
    };
    if number is Some && success_number(number->0) {
        WriteOutcome::Stored
    } else if number is Some && permanent_number(number->0) {
        WriteOutcome::Permanent
    } else if before + 1 < MAX_WRITE_ATTEMPTS {
        WriteOutcome::Again(delay_before(before + 1))
    } else {
        WriteOutcome::GivenUp
    }
}

/// A batch is stored when the response has a number from 200 to 299. It is given
/// up for good when the response has one from 400 to 499, but for 408 and 429.
/// After anything else, and where there is no response, it is sent again, after
/// one second and then after two, and no more than three times in all.
pub proof fn law_outcome_goes_by_the_number(before: nat, result: SendResult)
    ensures
        match result {
            SendResult::Response { status, .. } => {
                let n = status_number(status) as int;
                &&& write_outcome(before, result) is Stored <==> 200 <= n <= 299
                &&& write_outcome(before, result) is Permanent <==> 400 <= n <= 499 && n != 408
                    && n != 429
                &&& write_outcome(before, result) is Again <==> before < 2 && !(200 <= n <= 299)
                    && (n < 400 || n > 499 || n == 408 || n == 429)
            },
            SendResult::Failed(_) => {
                &&& before < 2 ==> write_outcome(before, result) is Again
                &&& before >= 2 ==> write_outcome(before, result) is GivenUp
            },
        },
        write_outcome(before, result) matches WriteOutcome::Again(delay) ==> (before == 0 && delay
            == 1) || (before == 1 && delay == 2),
        write_outcome(before, result) is GivenUp ==> before >= 2,
{
}

/// The text of a failed attempt.
pub open spec fn attempt_error(result: SendResult) -> Seq<char> {
    match result {
        SendResult::Failed(cause) => "Influx write request failed: "@ + cause@,
        SendResult::Response { status, body } => write_error_text(status_number(status), body@),
    }
}

impl WriteAttempt {
    /// How many attempts were made before this one.
    pub closed spec fn number(&self) -> nat {
        self.attempt as nat
    }

    /// The body of the request.
    pub closed spec fn spec_body(&self) -> Seq<char> {
        self.body@
    }

    /// The body of the request.
    pub fn body(&self) -> (s: &str)
        ensures
            s@ == self.spec_body(),
    {
        self.body.as_str()
    }

    /// What follows from the response. A success or a permanent failure ends
    /// the write; after any other failure the batch is sent again, up to three
    /// times in all.
    pub fn sent(self, result: SendResult) -> (next: AfterSend)
        requires
            self.number() < MAX_WRITE_ATTEMPTS,
        ensures
            match write_outcome(self.number(), result) {
                WriteOutcome::Stored => next matches AfterSend::Done(Ok(())),
                WriteOutcome::Permanent => next matches AfterSend::Done(
                    Err(SinkError::Permanent(_)),
                ),
                WriteOutcome::Again(delay) => next matches AfterSend::Retry { delay_secs, .. }
                    && delay_secs == delay,
                WriteOutcome::GivenUp => next matches AfterSend::Done(
                    Err(SinkError::Retryable(_)),
                ),
            },
            ({
                let success = result matches SendResult::Response { status, .. } && success_number(
                    status_number(status),
                );
                let permanent = result matches SendResult::Response { status, .. }
                    && !success_number(status_number(status)) && permanent_number(
                    status_number(status),
                );
                if success {
                    next matches AfterSend::Done(Ok(()))
                } else if permanent {
                    next matches AfterSend::Done(Err(SinkError::Permanent(s))) && s@
                        == attempt_error(result)
                } else if self.number() + 1 < MAX_WRITE_ATTEMPTS {
                    next matches AfterSend::Retry { delay_secs, attempt, cause } && delay_secs
                        == delay_before(self.number() + 1) && attempt.number() == self.number() + 1
                        && attempt.spec_body() == self.spec_body() && cause@ == attempt_error(
                        result,
                    )
                } else {
                    next matches AfterSend::Done(Err(SinkError::Retryable(s))) && s@
                        == attempt_error(result)
                }
            }),
    {
        let cause = match result {
            SendResult::Failed(cause) => {
                let mut s = String::from_str("Influx write request failed: ");
                s.append(cause.as_str());
                s
            },
            SendResult::Response { status, body } => {
                let n: u16 = number_of(&status);
                if 200 <= n && n < 300 {
                    return AfterSend::Done(Ok(()));
                }
                let permanent = is_permanent_status(status);
                let s = http_write_error(status, body.as_str());
                if permanent {
                    return AfterSend::Done(Err(SinkError::Permanent(s)));
                }
                s
            },
        };
        if self.attempt + 1 < MAX_WRITE_ATTEMPTS {
            let attempt: u32 = self.attempt + 1;
            let delay_secs: u64 = if attempt == 1 {
                1
            } else {
                2
            };
            AfterSend::Retry {
                delay_secs,
                attempt: WriteAttempt { body: self.body, attempt },
                cause,
            }
        } else {
            AfterSend::Done(Err(SinkError::Retryable(cause)))
        }
    }
}

/// The lines of a batch are the payloads of its events, one by one.
pub proof fn law_lines_are_the_payloads(events: Seq<WalEvent>, i: int)
    requires
        0 <= i < events.len(),
    ensures
        payloads(events).len() == events.len(),
        payloads(events)[i] == events[i].payload@,
{
}

/// A byte that a URL may hold stands for itself in one; any other is written as a
/// percent sign and its two hexadecimal digits, the higher one first.
pub proof fn law_bytes_in_a_url(bytes: Seq<u8>, byte: u8)
    ensures
        percent_encoded(Seq::<u8>::empty()).len() == 0,
        ({
            let before = percent_encoded(bytes);
            let after = percent_encoded(bytes.push(byte));
            let n = before.len() as int;
            let c = byte as char;
            if 'a' <= c <= 'z' || 'A' <= c <= 'Z' || '0' <= c <= '9' || c == '-' || c == '_' || c
                == '.' || c == '~' {
                after == before.push(c)
            } else {
                &&& after.len() == before.len() + 3
                &&& after.take(n) == before
                &&& after[n] == '%'
                &&& hex_value(after[n + 1]) * 16 + hex_value(after[n + 2]) == byte
            }
        }),
{
    assert(bytes.push(byte).drop_last() =~= bytes);
    let before = percent_encoded(bytes);
    let after = percent_encoded(bytes.push(byte));
    if is_unreserved(byte) {
        assert(after =~= before.push(byte as char));
    } else {
        assert(after.take(before.len() as int) =~= before);
    }
}

/// The value of a hexadecimal digit.
pub open spec fn hex_value(c: char) -> int {
    if '0' <= c <= '9' {
        c as int - '0' as int
    } else {
        c as int - 'A' as int + 10
    }
}

/// What `sent` makes of a response goes by its number: 200 to 299 ends the
/// batch well, 400 to 499 but for 408 and 429 ends it for good, and with any other
/// the same batch is sent again, up to three times in all.
pub proof fn law_responses_go_by_the_number(
    attempt: WriteAttempt,
    status: StatusCode,
    body: String,
    next: AfterSend,
)
    requires
        attempt.number() < 3,
        call_ensures(WriteAttempt::sent, (attempt, SendResult::Response { status, body }), next),
    ensures
        ({
            let n = status_number(status) as int;
            let permanent = 400 <= n <= 499 && n != 408 && n != 429;
            &&& (next matches AfterSend::Done(Ok(()))) <==> 200 <= n <= 299
            &&& (next matches AfterSend::Done(Err(SinkError::Permanent(_)))) <==> permanent
            &&& next is Retry <==> !(200 <= n <= 299) && !permanent && attempt.number() < 2
            &&& next matches AfterSend::Retry { delay_secs, attempt: again, .. } ==> {
                &&& again.spec_body() == attempt.spec_body()
                &&& again.number() == attempt.number() + 1
                &&& delay_secs == again.number()
            }
        }),
{
}

/// A batch that got no response is sent again, up to three times in all, and is
/// never given up for good.
pub proof fn law_batches_without_response_are_sent_again(
    attempt: WriteAttempt,
    cause: String,
    next: AfterSend,
)
    requires
        attempt.number() < 3,
        call_ensures(WriteAttempt::sent, (attempt, SendResult::Failed(cause)), next),
    ensures
        next is Retry <==> attempt.number() < 2,
        next matches AfterSend::Retry { attempt: again, .. } ==> again.spec_body()
            == attempt.spec_body() && again.number() == attempt.number() + 1,
        attempt.number() == 2 ==> next matches AfterSend::Done(Err(SinkError::Retryable(_))),
{
}

/// A status is permanent by its number alone: 400 to 499, but for 408 and 429.
pub proof fn law_permanent_statuses(status: StatusCode, permanent: bool)
    requires
        call_ensures(is_permanent_status, (status,), permanent),
    ensures
        permanent <==> 400 <= status_number(status) <= 499 && status_number(status) != 408
            && status_number(status) != 429,
{
}

/// The point that is made of a message has a time if and only if the time of the
/// message is valid and over 0, and then that one.
pub proof fn law_made_points_have_only_valid_times(
    sensor: SensorMessage,
    status: StatusMessage,
    p: Point,
    q: Point,
)
    requires
        call_ensures(sensor_to_point, (&sensor,), p),
        call_ensures(status_to_point, (&status,), q),
    ensures
        p@.timestamp_ms == (if sensor.time_valid && sensor.time_ms > 0 {
            Some(sensor.time_ms)
        } else {
            None
        }),
        q@.timestamp_ms == (if status.time_valid && status.time_ms > 0 {
            Some(status.time_ms)
        } else {
            None
        }),
{
}

/// A write starts with the first attempt, and with one line per event; nothing is
/// written of an empty batch.
pub proof fn law_writes_begin_with_all_lines(batch: &[WalEvent], r: Option<WriteAttempt>)
    requires
        call_ensures(InfluxSink::begin, (batch,), r),
    ensures
        r is None <==> batch@.len() == 0,
        r matches Some(attempt) ==> {
            &&& attempt.number() == 0
            &&& (forall|i: int|
                0 <= i < batch@.len() ==> (#[trigger] batch@[i]).payload@.len() > 0)
                ==> attempt.spec_body() == text::join_with(payloads(batch@), "\n"@)
        },
{
    if forall|i: int| 0 <= i < batch@.len() ==> (#[trigger] batch@[i]).payload@.len() > 0 {
        assert forall|i: int| 0 <= i < payloads(batch@).len() implies (#[trigger] payloads(
            batch@,
        )[i]).len() > 0 by {
            assert(batch@[i].payload@.len() > 0);
        }
        law_body_is_one_line_per_event(payloads(batch@));
    }
}

/// Writes go to the address of the database, whatever slashes it ends with, with
/// the organisation and the bucket, and with times in milliseconds.
pub proof fn law_write_url(
    url: &str,
    org: &str,
    bucket: &str,
    sink: InfluxSink,
)
    requires
        call_ensures(InfluxSink::new, (url, org, bucket), sink),
    ensures
        text::trim_end(url@, CharClass::Slash).is_prefix_of(sink.spec_write_url()),
        "&precision=ms"@.is_suffix_of(sink.spec_write_url()),
        sink.spec_write_url().skip(text::trim_end(url@, CharClass::Slash).len() as int)
            == "/api/v2/write?org="@ + percent_encoded(encode_utf8(org@)) + "&bucket="@
            + percent_encoded(encode_utf8(bucket@)) + "&precision=ms"@,
{
    assert(sink.spec_write_url().skip(text::trim_end(url@, CharClass::Slash).len() as int)
        =~= "/api/v2/write?org="@ + percent_encoded(encode_utf8(org@)) + "&bucket="@
        + percent_encoded(encode_utf8(bucket@)) + "&precision=ms"@);
}

/// Encoding a message adds its line to what is there.
pub proof fn law_lines_are_added(encoder: InfluxEncoder, message: HandledMessage, out: &mut String)
    requires
        call_ensures(InfluxEncoder::encode, (&encoder, &message, out), ()),
    ensures
        old(out)@.is_prefix_of(final(out)@),
        final(out)@.skip(old(out)@.len() as int) == message_line(&message),
{
    assert(final(out)@.skip(old(out)@.len() as int) =~= message_line(&message));
}

/// The error of a response starts with its number and ends with its body.
pub proof fn law_response_errors_show_the_response(number: u16, body: Seq<char>)
    ensures
        ("Influx write failed: status="@ + text::decimal(number as nat)).is_prefix_of(
            write_error_text(number, body),
        ),
        body.is_suffix_of(write_error_text(number, body)),
{
    let t = write_error_text(number, body);
    let start = "Influx write failed: status="@ + text::decimal(number as nat);
    assert(t.subrange(0, start.len() as int) =~= start);
    assert(t.subrange(t.len() - body.len(), t.len() as int) =~= body);
}

} // verus!
