//! What the HTTP interface answers out of the cache.

use vstd::prelude::*;

use super::state::{is_stale, normalized, CacheEvent, CacheState, StateView};
use crate::model::messages::SensorData;

verus! {

/// What the list of sensors says of one.
#[derive(Debug)]
pub struct SensorDto {
    pub device_id: String,
    pub stale: bool,
    pub last_seen_ms: u64,
    pub value: SensorData,
}

/// The list of sensors.
#[derive(Debug)]
pub struct SensorStateResponse {
    pub ttl_ms: u64,
    pub sensors: Vec<SensorDto>,
}

/// What is said of a sensor that was asked for by its name.
#[derive(Debug)]
pub struct SensorDtoNoId {
    pub stale: bool,
    pub last_seen_ms: u64,
    pub value: SensorData,
}

/// The answer to who asks for a sensor by its name.
#[derive(Debug)]
pub struct DeviceStateResponse {
    pub ttl_ms: u64,
    pub device_id: String,
    pub sensor: Option<SensorDtoNoId>,
}

/// What the stream of updates says of a sensor.
#[derive(Debug)]
pub struct SseSensorEvent {
    pub kind: &'static str,
    pub device_id: String,
    pub last_seen_ms: u64,
    pub value: SensorData,
}

/// What goes to who follows the stream of updates.
#[derive(Debug)]
pub enum StreamUpdate {
    /// An event of this type, about a sensor.
    Sensor(&'static str, SseSensorEvent),
    /// An event of this type, with this text.
    Notice(&'static str, &'static str),
}

impl SensorDto {
    /// Whether this is what is said of a sensor with this name and this state.
    pub open spec fn says(&self, id: Seq<char>, state: StateView, stale: bool) -> bool {
        &&& self.device_id@ == id
        &&& self.last_seen_ms == state.last_seen_ms
        &&& self.value@ == state.value
        &&& self.stale == stale
    }
}

/// The status of the answer to who asks whether the service is ready: it is when
/// its source is.
pub fn readyz(source_ready: bool) -> (status: u16)
    ensures
        source_ready ==> status == 200,
        !source_ready ==> status == 503,
{
    if source_ready {
        200
    } else {
        503
    }
}

/// The list of the sensors in the cache, at this time.
pub fn list_state(cache_state: &CacheState, now: u64) -> (r: SensorStateResponse)
    requires
        cache_state.wf(),
    ensures
        r.ttl_ms == cache_state.ttl(),
        r.sensors@.len() == cache_state.ids().len(),
        forall|i: int|
            0 <= i < r.sensors@.len() ==> (#[trigger] r.sensors@[i]).says(
                cache_state.ids()[i],
                cache_state.states()[i],
                is_stale(now, cache_state.states()[i].last_seen_ms, cache_state.ttl()),
            ),
{
    let all = cache_state.snapshot_all_sensors(now);
    let ghost rows = all@;
    let mut sensors: Vec<SensorDto> = Vec::new();
    for row in it: all
        invariant
            it.seq() == rows,
            sensors@.len() == it.index(),
            forall|i: int|
                0 <= i < it.index() ==> (#[trigger] sensors@[i]).says(
                    rows[i].0@,
                    rows[i].1@,
                    rows[i].2,
                ),
    {
        let (device_id, state, stale) = row;
        sensors.push(
            SensorDto { device_id, stale, last_seen_ms: state.last_seen_ms, value: state.value },
        );
    }
    SensorStateResponse { ttl_ms: cache_state.ttl_ms(), sensors }
}

/// The answer to who asks for the sensor with this name, at this time.
pub fn get_state(cache_state: &CacheState, device_id: String, now: u64) -> (r: DeviceStateResponse)
    requires
        cache_state.wf(),
    ensures
        r.ttl_ms == cache_state.ttl(),
        r.device_id@ == device_id@,
        match r.sensor {
            Some(sensor) => {
                &&& cache_state.holds(
                    normalized(device_id@),
                    (StateView { last_seen_ms: sensor.last_seen_ms, value: sensor.value@ }),
                )
                &&& sensor.stale == is_stale(now, sensor.last_seen_ms, cache_state.ttl())
            },
            None => !cache_state.has(normalized(device_id@)),
        },
{
    let sensor = match cache_state.snapshot_sensor(device_id.as_str(), now) {
        Some((state, stale)) => Some(
            SensorDtoNoId { stale, last_seen_ms: state.last_seen_ms, value: state.value },
        ),
        None => None,
    };
    DeviceStateResponse { ttl_ms: cache_state.ttl_ms(), device_id, sensor }
}

/// What goes to who follows the stream of updates, for an event of the cache, or
/// when this many events were missed.
pub fn stream_update(event: Result<CacheEvent, u64>) -> (r: StreamUpdate)
    ensures
        match event {
            Ok(CacheEvent::Sensor { device_id, last_seen_ms, value }) => {
                r matches StreamUpdate::Sensor(name, e) && name@ == "sensor"@ && e.kind@
                    == "sensor"@ && e.device_id == device_id && e.last_seen_ms == last_seen_ms
                    && e.value == value
            },
            Err(_) => {
                r matches StreamUpdate::Notice(name, hint) && name@ == "lagged"@ && hint@
                    == "{\"hint\":\"poll /v1/state\"}"@
            },
        },
{
    match event {
        Ok(CacheEvent::Sensor { device_id, last_seen_ms, value }) => StreamUpdate::Sensor(
            "sensor",
            SseSensorEvent { kind: "sensor", device_id, last_seen_ms, value },
        ),
        Err(_) => StreamUpdate::Notice("lagged", "{\"hint\":\"poll /v1/state\"}"),
    }
}

/// The service says that it is ready if and only if its source is.
pub proof fn law_ready_with_the_source(source_ready: bool, status: u16)
    requires
        call_ensures(readyz, (source_ready,), status),
    ensures
        source_ready <==> 200 <= status <= 299,
        !source_ready <==> 500 <= status <= 599,
        status == 200 || status == 503,
{
}

/// Who asks for a sensor gets what is listed of it, if it is listed at all,
/// whatever the case of the name and the whitespace around it.
pub proof fn law_one_sensor_is_as_it_is_listed(
    cache: CacheState,
    now: u64,
    all: SensorStateResponse,
    device_id: String,
    one: DeviceStateResponse,
    i: int,
)
    requires
        cache.wf(),
        call_ensures(list_state, (&cache, now), all),
        call_ensures(get_state, (&cache, device_id, now), one),
        0 <= i < all.sensors@.len(),
        all.sensors@[i].device_id@ == normalized(device_id@),
    ensures
        one.ttl_ms == all.ttl_ms,
        one.device_id@ == device_id@,
        one.sensor matches Some(sensor) && {
            &&& sensor.stale == all.sensors@[i].stale
            &&& sensor.last_seen_ms == all.sensors@[i].last_seen_ms
            &&& sensor.value@ == all.sensors@[i].value@
        },
{
    assert(all.sensors@[i].says(
        cache.ids()[i],
        cache.states()[i],
        is_stale(now, cache.states()[i].last_seen_ms, cache.ttl()),
    ));
    assert(cache.ids().contains(cache.ids()[i]));
    if let Some(sensor) = one.sensor {
        let state = StateView { last_seen_ms: sensor.last_seen_ms, value: sensor.value@ };
        let j = choose|j: int|
            0 <= j < cache.ids().len() && #[trigger] cache.ids()[j] == normalized(device_id@)
                && cache.states()[j] == state;
        assert(i == j);
    }
}

/// A sensor that is not listed is not found, and what is listed is stale if and
/// only if more than the time to live has passed since it was last heard of.
pub proof fn law_listed_sensors(
    cache: CacheState,
    now: u64,
    all: SensorStateResponse,
    device_id: String,
    one: DeviceStateResponse,
)
    requires
        cache.wf(),
        call_ensures(list_state, (&cache, now), all),
        call_ensures(get_state, (&cache, device_id, now), one),
    ensures
        all.ttl_ms == cache.ttl(),
        forall|i: int|
            0 <= i < all.sensors@.len() ==> ((#[trigger] all.sensors@[i]).stale <==> now
                > all.sensors@[i].last_seen_ms + all.ttl_ms),
        (forall|i: int|
            0 <= i < all.sensors@.len() ==> (#[trigger] all.sensors@[i]).device_id@ != normalized(
                device_id@,
            )) ==> one.sensor is None,
{
    assert forall|i: int| 0 <= i < all.sensors@.len() implies ((
    #[trigger] all.sensors@[i]).stale <==> now > all.sensors@[i].last_seen_ms + all.ttl_ms) by {
        assert(all.sensors@[i].says(
            cache.ids()[i],
            cache.states()[i],
            is_stale(now, cache.states()[i].last_seen_ms, cache.ttl()),
        ));
    }
    if one.sensor is Some {
        let sensor = one.sensor->0;
        let state = StateView { last_seen_ms: sensor.last_seen_ms, value: sensor.value@ };
        let j = choose|j: int|
            0 <= j < cache.ids().len() && #[trigger] cache.ids()[j] == normalized(device_id@)
                && cache.states()[j] == state;
        assert(all.sensors@[j].says(
            cache.ids()[j],
            cache.states()[j],
            is_stale(now, cache.states()[j].last_seen_ms, cache.ttl()),
        ));
    }
}

/// An update goes out as it came from the cache, and who missed some is told to
/// ask for the state.
pub proof fn law_updates_go_out(event: Result<CacheEvent, u64>, r: StreamUpdate)
    requires
        call_ensures(stream_update, (event,), r),
    ensures
        event is Ok <==> r is Sensor,
        event is Err <==> r is Notice,
        event matches Ok(CacheEvent::Sensor { device_id, last_seen_ms, value }) ==> (
        r matches StreamUpdate::Sensor(_, e) && e.device_id@ == device_id@ && e.last_seen_ms
            == last_seen_ms && e.value@ == value@),
{
}

} // verus!
