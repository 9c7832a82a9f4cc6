//! The messages that devices send, in their canonical form.

use vstd::prelude::*;

verus! {

/// A measured or derived number.
///
/// The number is a double: `bits` is its bit pattern, by which numbers that are
/// not negative are ordered, and `text` its shortest decimal text, which is
/// written to the database.
#[derive(Debug)]
pub struct Reading {
    pub bits: u64,
    pub text: String,
}

/// The contents of a [`Reading`].
#[verifier::ext_equal]
pub struct ReadingView {
    pub bits: u64,
    pub text: Seq<char>,
}

impl View for Reading {
    type V = ReadingView;

    open spec fn view(&self) -> ReadingView {
        ReadingView { bits: self.bits, text: self.text@ }
    }
}

impl Clone for Reading {
    fn clone(&self) -> (copy: Self)
        ensures
            copy@ == self@,
    {
        Reading { bits: self.bits, text: self.text.clone() }
    }
}

/// What a sensor measured, and what was derived from it.
#[derive(Debug)]
pub struct SensorData {
    pub temp_c: Reading,
    pub rel_hum_perc: Reading,
    pub pressure_hpa: Reading,
    pub gas_ohm: Reading,
    pub iaq_score: Reading,
    pub iaq_text: String,
    pub dew_point_c: Reading,
    pub heat_index_c: Reading,
    pub altitude_m: Reading,
}

/// The contents of [`SensorData`].
#[verifier::ext_equal]
pub struct SensorDataView {
    pub temp_c: ReadingView,
    pub rel_hum_perc: ReadingView,
    pub pressure_hpa: ReadingView,
    pub gas_ohm: ReadingView,
    pub iaq_score: ReadingView,
    pub iaq_text: Seq<char>,
    pub dew_point_c: ReadingView,
    pub heat_index_c: ReadingView,
    pub altitude_m: ReadingView,
}

impl View for SensorData {
    type V = SensorDataView;

    open spec fn view(&self) -> SensorDataView {
        SensorDataView {
            temp_c: self.temp_c@,
            rel_hum_perc: self.rel_hum_perc@,
            pressure_hpa: self.pressure_hpa@,
            gas_ohm: self.gas_ohm@,
            iaq_score: self.iaq_score@,
            iaq_text: self.iaq_text@,
            dew_point_c: self.dew_point_c@,
            heat_index_c: self.heat_index_c@,
            altitude_m: self.altitude_m@,
        }
    }
}

impl Clone for SensorData {
    fn clone(&self) -> (copy: Self)
        ensures
            copy@ == self@,
    {
        SensorData {
            temp_c: self.temp_c.clone(),
            rel_hum_perc: self.rel_hum_perc.clone(),
            pressure_hpa: self.pressure_hpa.clone(),
            gas_ohm: self.gas_ohm.clone(),
            iaq_score: self.iaq_score.clone(),
            iaq_text: self.iaq_text.clone(),
            dew_point_c: self.dew_point_c.clone(),
            heat_index_c: self.heat_index_c.clone(),
            altitude_m: self.altitude_m.clone(),
        }
    }
}

/// The state of a device that reports sensor data.
#[derive(Debug, Clone)]
pub struct SensorStatus {
    pub uptime: i64,
    pub free_mem: i64,
    pub rssi: i64,
    pub ssid: String,
}

/// A message of a sensor.
#[derive(Debug, Clone)]
pub struct SensorMessage {
    pub device_id: String,
    pub room: String,
    pub device_class: String,
    pub fw_version: String,
    pub time_ms: i64,
    pub time_iso: String,
    pub time_valid: bool,
    pub data: SensorData,
}

/// A message on the state of a device.
#[derive(Debug, Clone)]
pub struct StatusMessage {
    pub device_id: String,
    pub device_class: String,
    pub fw_version: String,
    pub ip: String,
    pub rssi: i64,
    pub time_ms: i64,
    pub time_iso: String,
    pub time_valid: bool,
    pub uptime: i64,
    pub free_mem: i64,
    pub ssid: String,
}

/// The kinds of messages.
#[derive(Debug, Clone, Copy, PartialEq, Eq, Structural)]
pub enum MessageType {
    Sensor,
    Status,
}

impl MessageType {
    /// The name of the kind.
    pub open spec fn spec_str(self) -> Seq<char> {
        match self {
            MessageType::Sensor => "sensor"@,
            MessageType::Status => "status"@,
        }
    }

    /// The name of the kind.
    pub fn as_str(self) -> (s: &'static str)
        ensures
            s@ == self.spec_str(),
    {
        match self {
            MessageType::Sensor => "sensor",
            MessageType::Status => "status",
        }
    }
}

/// A message in its canonical form.
#[derive(Debug, Clone)]
pub enum HandledMessage {
    Sensor(SensorMessage),
    Status(StatusMessage),
}

impl HandledMessage {
    pub open spec fn spec_kind(&self) -> MessageType {
        match self {
            HandledMessage::Sensor(_) => MessageType::Sensor,
            HandledMessage::Status(_) => MessageType::Status,
        }
    }

    /// The kind of the message.
    pub fn kind(&self) -> (kind: MessageType)
        ensures
            kind == self.spec_kind(),
    {
        match self {
            HandledMessage::Sensor(_) => MessageType::Sensor,
            HandledMessage::Status(_) => MessageType::Status,
        }
    }
}

/// The kind of a message is told by what it holds, and the two kinds have names of
/// their own.
pub proof fn law_kinds_are_told_apart(message: HandledMessage)
    ensures
        message is Sensor <==> message.spec_kind() is Sensor,
        message is Status <==> message.spec_kind() is Status,
        MessageType::Sensor.spec_str() != MessageType::Status.spec_str(),
{
    reveal_strlit("sensor");
    reveal_strlit("status");
    assert("sensor"@[1] != "status"@[1]);
}

} // verus!
