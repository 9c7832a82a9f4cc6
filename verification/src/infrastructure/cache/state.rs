//! The last known state of the sensors.

use vstd::prelude::*;

use crate::model::messages::{HandledMessage, SensorData, SensorDataView, SensorMessage};
use crate::text;
use crate::text::CharClass;

verus! {

/// What was last heard of a sensor.
#[derive(Debug)]
pub struct SensorState {
    pub last_seen_ms: u64,
    pub value: SensorData,
}

/// The contents of a [`SensorState`].
#[verifier::ext_equal]
pub struct StateView {
    pub last_seen_ms: u64,
    pub value: SensorDataView,
}

impl View for SensorState {
    type V = StateView;

    open spec fn view(&self) -> StateView {
        StateView { last_seen_ms: self.last_seen_ms, value: self.value@ }
    }
}

impl Clone for SensorState {
    fn clone(&self) -> (copy: Self)
        ensures
            copy@ == self@,
    {
        SensorState { last_seen_ms: self.last_seen_ms, value: self.value.clone() }
    }
}

/// A change to the cache.
#[derive(Debug, Clone)]
pub enum CacheEvent {
    Sensor { device_id: String, last_seen_ms: u64, value: SensorData },
}

/// A sensor and what was last heard of it.
#[derive(Debug)]
struct CacheEntry {
    device_id: String,
    state: SensorState,
}

/// The last known state of the sensors, each under its normalized name.
#[derive(Debug)]
pub struct CacheState {
    entries: Vec<CacheEntry>,
    ttl_ms: u64,
    max_sensors: usize,
}

/// The name under which a device is kept: without white space around it, and
/// with ASCII letters in lower case.
pub open spec fn normalized(device_id: Seq<char>) -> Seq<char> {
    text::ascii_lowered(text::trimmed(device_id))
}

fn normalize_device_id(device_id: &str) -> (s: String)
    ensures
        s@ == normalized(device_id@),
{
    text::lower_ascii(text::trim(device_id, CharClass::Whitespace).as_str())
}

/// Whether a state that was heard of then is stale now.
pub open spec fn is_stale(now: u64, last_seen_ms: u64, ttl_ms: u64) -> bool {
    now.saturating_sub(last_seen_ms) > ttl_ms
}

impl CacheState {
    /// The sensors in the cache, each one once.
    pub closed spec fn ids(&self) -> Seq<Seq<char>> {
        self.entries@.map_values(|e: CacheEntry| e.device_id@)
    }

    /// What was last heard of the sensors in the cache.
    pub closed spec fn states(&self) -> Seq<StateView> {
        self.entries@.map_values(|e: CacheEntry| e.state@)
    }

    /// How long a state is not stale.
    pub closed spec fn ttl(&self) -> u64 {
        self.ttl_ms
    }

    /// How many sensors are kept; 0 for any number.
    pub closed spec fn cap(&self) -> usize {
        self.max_sensors
    }

    /// No sensor is kept twice, and no more than the cap are.
    pub open spec fn wf(&self) -> bool {
        &&& self.ids().no_duplicates()
        &&& self.ids().len() == self.states().len()
        &&& self.cap() > 0 ==> self.ids().len() <= self.cap()
    }

    /// Whether the cache holds this state of this sensor.
    pub open spec fn holds(&self, id: Seq<char>, state: StateView) -> bool {
        exists|i: int|
            0 <= i < self.ids().len() && #[trigger] self.ids()[i] == id && self.states()[i] == state
    }

    /// Whether the cache holds a state of this sensor.
    pub open spec fn has(&self, id: Seq<char>) -> bool {
        self.ids().contains(id)
    }

    pub fn new(ttl_ms: u64, max_sensors: usize) -> (c: Self)
        ensures
            c.wf(),
            c.ids().len() == 0,
            c.ttl() == ttl_ms,
            c.cap() == max_sensors,
    {
        CacheState { entries: Vec::new(), ttl_ms, max_sensors }
    }

    pub fn ttl_ms(&self) -> (ms: u64)
        ensures
            ms == self.ttl(),
    {
        self.ttl_ms
    }

    /// Where a sensor stands among the entries.
    fn find(&self, id: &str) -> (r: Option<usize>)
        ensures
            match r {
                Some(i) => i < self.ids().len() && self.ids()[i as int] == id@,
                None => !self.has(id@),
            },
    {
        let mut i: usize = 0;
        while i < self.entries.len()
            invariant
                i <= self.entries@.len(),
                forall|j: int| 0 <= j < i ==> #[trigger] self.ids()[j] != id@,
            decreases self.entries@.len() - i,
        {
            if text::same_text(self.entries[i].device_id.as_str(), id) {
                return Some(i);
            }
            i = i + 1;
        }
        None
    }

    /// The entry that was heard of the longest ago.
    fn stalest(&self) -> (at: usize)
        requires
            self.ids().len() > 0,
        ensures
            at < self.ids().len(),
            forall|j: int|
                0 <= j < self.states().len() ==> self.states()[at as int].last_seen_ms <= (
                #[trigger] self.states()[j]).last_seen_ms,
    {
        let mut at: usize = 0;
        let mut i: usize = 1;
        while i < self.entries.len()
            invariant
                1 <= i <= self.entries@.len(),
                at < i,
                forall|j: int|
                    0 <= j < i ==> self.states()[at as int].last_seen_ms <= (
                    #[trigger] self.states()[j]).last_seen_ms,
            decreases self.entries@.len() - i,
        {
            proof {
                assert(self.states()[i as int].last_seen_ms
                    == self.entries@[i as int].state.last_seen_ms);
                assert(self.states()[at as int].last_seen_ms
                    == self.entries@[at as int].state.last_seen_ms);
            }
            if self.entries[i].state.last_seen_ms < self.entries[at].state.last_seen_ms {
                at = i;
            }
            i = i + 1;
        }
        at
    }

    /// Keeps what a sensor sent. If the sensor is new and the cache is full,
    /// one that was heard of the longest ago is dropped.
    pub fn update_sensor(&mut self, sensor_msg: &SensorMessage, now_ms: u64) -> (event: CacheEvent)
        requires
            old(self).wf(),
        ensures
            final(self).wf(),
            final(self).ttl() == old(self).ttl(),
            final(self).cap() == old(self).cap(),
            sensor_updated(
                old(self),
                final(self),
                normalized(sensor_msg.device_id@),
                (StateView { last_seen_ms: now_ms, value: sensor_msg.data@ }),
            ),
            event matches CacheEvent::Sensor { device_id, last_seen_ms, value } && device_id@
                == normalized(sensor_msg.device_id@) && last_seen_ms == now_ms && value@
                == sensor_msg.data@,
    {
        let device_id = normalize_device_id(sensor_msg.device_id.as_str());
        let state = SensorState { last_seen_ms: now_ms, value: sensor_msg.data.clone() };
        let event = CacheEvent::Sensor {
            device_id: device_id.clone(),
            last_seen_ms: now_ms,
            value: sensor_msg.data.clone(),
        };
        let ghost id = device_id@;
        let ghost new_state = state@;
        match self.find(device_id.as_str()) {
            Some(at) => {
                let entry = CacheEntry { device_id, state };
                self.entries.set(at, entry);
                proof {
                    assert(self.ids() =~= old(self).ids());
                    assert(self.states() =~= old(self).states().update(at as int, new_state));
                }
            },
            None => {
                if self.max_sensors > 0 && self.entries.len() >= self.max_sensors {
                    let at: usize = self.stalest();
                    let dropped = self.entries.remove(at);
                    proof {
                        assert(self.ids() =~= old(self).ids().remove(at as int));
                        assert(self.states() =~= old(self).states().remove(at as int));
                    }
                    let ghost kept_ids = self.ids();
                    let ghost kept_states = self.states();
                    self.entries.push(CacheEntry { device_id, state });
                    proof {
                        assert(self.ids() =~= kept_ids.push(id));
                        assert(self.states() =~= kept_states.push(new_state));
                        lemma_replaced(
                            old(self).ids(),
                            at as int,
                            id,
                        );
                        assert(evicted(old(self), self, at as int, id, new_state));
                    }
                } else {
                    self.entries.push(CacheEntry { device_id, state });
                    proof {
                        assert(self.ids() =~= old(self).ids().push(id));
                        assert(self.states() =~= old(self).states().push(new_state));
                    }
                }
            },
        }
        event
    }

    /// Keeps what a message says of a sensor. Other messages are not kept.
    pub fn update(&mut self, msg: &HandledMessage, now_ms: u64) -> (event: Option<CacheEvent>)
        requires
            old(self).wf(),
        ensures
            final(self).wf(),
            final(self).ttl() == old(self).ttl(),
            final(self).cap() == old(self).cap(),
            match msg {
                HandledMessage::Sensor(sensor_msg) => {
                    &&& sensor_updated(
                        old(self),
                        final(self),
                        normalized(sensor_msg.device_id@),
                        (StateView { last_seen_ms: now_ms, value: sensor_msg.data@ }),
                    )
                    &&& event matches Some(
                        CacheEvent::Sensor { device_id, last_seen_ms, value },
                    ) && device_id@ == normalized(sensor_msg.device_id@) && last_seen_ms == now_ms
                        && value@ == sensor_msg.data@
                },
                HandledMessage::Status(_) => *final(self) == *old(self) && event is None,
            },
    {
        match msg {
            HandledMessage::Sensor(sensor_msg) => Some(self.update_sensor(sensor_msg, now_ms)),
            HandledMessage::Status(_) => None,
        }
    }

    /// All sensors, what was last heard of each, and whether that is stale.
    pub fn snapshot_all_sensors(&self, now: u64) -> (all: Vec<(String, SensorState, bool)>)
        requires
            self.wf(),
        ensures
            all@.len() == self.ids().len(),
            forall|i: int|
                0 <= i < all@.len() ==> {
                    &&& (#[trigger] all@[i]).0@ == self.ids()[i]
                    &&& all@[i].1@ == self.states()[i]
                    &&& all@[i].2 == is_stale(now, self.states()[i].last_seen_ms, self.ttl())
                },
    {
        let mut all: Vec<(String, SensorState, bool)> = Vec::new();
        let mut i: usize = 0;
        while i < self.entries.len()
            invariant
                i <= self.entries@.len(),
                all@.len() == i,
                forall|j: int|
                    0 <= j < i ==> {
                        &&& (#[trigger] all@[j]).0@ == self.ids()[j]
                        &&& all@[j].1@ == self.states()[j]
                        &&& all@[j].2 == is_stale(now, self.states()[j].last_seen_ms, self.ttl())
                    },
            decreases self.entries@.len() - i,
        {
            let entry = &self.entries[i];
            let stale: bool = now.saturating_sub(entry.state.last_seen_ms) > self.ttl_ms;
            proof {
                assert(self.ids()[i as int] == entry.device_id@);
                assert(self.states()[i as int] == entry.state@);
            }
            all.push((entry.device_id.clone(), entry.state.clone(), stale));
            i = i + 1;
        }
        all
    }

    /// What was last heard of a sensor, and whether that is stale.
    pub fn snapshot_sensor(&self, device_id: &str, now: u64) -> (r: Option<(SensorState, bool)>)
        requires
            self.wf(),
        ensures
            match r {
                Some((state, stale)) => {
                    &&& self.holds(normalized(device_id@), state@)
                    &&& stale == is_stale(now, state.last_seen_ms, self.ttl())
                },
                None => !self.has(normalized(device_id@)),
            },
    {
        let id = normalize_device_id(device_id);
        match self.find(id.as_str()) {
            Some(at) => {
                let state = self.entries[at].state.clone();
                let stale: bool = now.saturating_sub(state.last_seen_ms) > self.ttl_ms;
                proof {
                    assert(self.states()[at as int] == self.entries@[at as int].state@);
                }
                Some((state, stale))
            },
            None => None,
        }
    }
}

/// Whether `after` is `before` with the entry number `at` dropped and a new
/// sensor put in.
pub open spec fn evicted(
    before: &CacheState,
    after: &CacheState,
    at: int,
    id: Seq<char>,
    state: StateView,
) -> bool {
    &&& 0 <= at < before.ids().len()
    &&& after.ids() == before.ids().remove(at).push(id)
    &&& after.states() == before.states().remove(at).push(state)
    &&& forall|j: int|
        0 <= j < before.states().len() ==> before.states()[at].last_seen_ms <= (
        #[trigger] before.states()[j]).last_seen_ms
}

/// Whether `after` is `before` with this state of this sensor put in: in place
/// of the state before, if there was one, or else as a new entry, for which one
/// that was heard of the longest ago makes room if the cache is full.
pub open spec fn sensor_updated(
    before: &CacheState,
    after: &CacheState,
    id: Seq<char>,
    state: StateView,
) -> bool {
    if before.has(id) {
        exists|at: int|
            0 <= at < before.ids().len() && #[trigger] before.ids()[at] == id && after.ids()
                == before.ids() && after.states() == before.states().update(at, state)
    } else if before.cap() == 0 || before.ids().len() < before.cap() {
        after.ids() == before.ids().push(id) && after.states() == before.states().push(state)
    } else {
        exists|at: int| #[trigger] evicted(before, after, at, id, state)
    }
}

/// Names stay distinct when one makes room for a new one.
proof fn lemma_replaced(ids: Seq<Seq<char>>, at: int, id: Seq<char>)
    requires
        ids.no_duplicates(),
        !ids.contains(id),
        0 <= at < ids.len(),
    ensures
        ids.remove(at).push(id).no_duplicates(),
{
    let after = ids.remove(at).push(id);
    assert forall|i: int, j: int|
        0 <= i < after.len() && 0 <= j < after.len() && i != j implies after[i] != after[j] by {
        let a = if i < at {
            i
        } else {
            i + 1
        };
        let b = if j < at {
            j
        } else {
            j + 1
        };
        if i < after.len() - 1 {
            assert(after[i] == ids[a]);
        }
        if j < after.len() - 1 {
            assert(after[j] == ids[b]);
        }
    }
}

/// What a sensor sent last is what the cache holds of it, and of any other
/// sensor that is still in the cache it holds what it held before.
pub proof fn law_update_is_read_back(
    before: CacheState,
    after: CacheState,
    id: Seq<char>,
    state: StateView,
)
    requires
        before.wf(),
        after.wf(),
        sensor_updated(&before, &after, id, state),
    ensures
        after.holds(id, state),
        forall|other: Seq<char>, s: StateView|
            other != id && #[trigger] after.holds(other, s) ==> before.holds(other, s),
        before.has(id) ==> after.ids().len() == before.ids().len(),
        after.cap() == before.cap() && before.cap() > 0 ==> after.ids().len() <= before.cap(),
{
    let n = after.ids().len();
    if before.has(id) {
        let at = choose|at: int|
            0 <= at < before.ids().len() && #[trigger] before.ids()[at] == id && after.ids()
                == before.ids() && after.states() == before.states().update(at, state);
        assert(after.ids()[at] == id && after.states()[at] == state);
        assert forall|other: Seq<char>, s: StateView|
            other != id && #[trigger] after.holds(other, s) implies before.holds(other, s) by {
            let i = choose|i: int|
                0 <= i < after.ids().len() && #[trigger] after.ids()[i] == other
                    && after.states()[i] == s;
            assert(before.ids()[i] == other && before.states()[i] == s);
        }
    } else if before.cap() == 0 || before.ids().len() < before.cap() {
        assert(after.ids()[n - 1] == id && after.states()[n - 1] == state);
        assert forall|other: Seq<char>, s: StateView|
            other != id && #[trigger] after.holds(other, s) implies before.holds(other, s) by {
            let i = choose|i: int|
                0 <= i < after.ids().len() && #[trigger] after.ids()[i] == other
                    && after.states()[i] == s;
            assert(before.ids()[i] == other && before.states()[i] == s);
        }
    } else {
        let at = choose|at: int| #[trigger] evicted(&before, &after, at, id, state);
        assert(after.ids()[n - 1] == id && after.states()[n - 1] == state);
        assert forall|other: Seq<char>, s: StateView|
            other != id && #[trigger] after.holds(other, s) implies before.holds(other, s) by {
            let i = choose|i: int|
                0 <= i < after.ids().len() && #[trigger] after.ids()[i] == other
                    && after.states()[i] == s;
            let j = if i < at {
                i
            } else {
                i + 1
            };
            assert(before.ids()[j] == other && before.states()[j] == s);
        }
    }
}

/// A sensor is dropped only for a new one in a full cache, only one is, and no
/// sensor was heard of longer ago than it.
pub proof fn law_only_the_stalest_is_dropped(
    before: CacheState,
    after: CacheState,
    id: Seq<char>,
    state: StateView,
    gone: Seq<char>,
    gone_state: StateView,
)
    requires
        before.wf(),
        after.wf(),
        sensor_updated(&before, &after, id, state),
        before.holds(gone, gone_state),
        !after.has(gone),
    ensures
        !before.has(id),
        before.cap() > 0,
        before.ids().len() == before.cap(),
        forall|j: int|
            0 <= j < before.states().len() ==> gone_state.last_seen_ms <= (
            #[trigger] before.states()[j]).last_seen_ms,
        forall|other: Seq<char>| #[trigger]
            before.has(other) && other != gone ==> after.has(other),
{
    let g = choose|i: int|
        0 <= i < before.ids().len() && #[trigger] before.ids()[i] == gone && before.states()[i]
            == gone_state;
    if before.has(id) {
        assert(after.ids()[g] == gone);
    } else if before.cap() == 0 || before.ids().len() < before.cap() {
        assert(after.ids()[g] == gone);
    } else {
        let at = choose|at: int| #[trigger] evicted(&before, &after, at, id, state);
        if g < at {
            assert(after.ids()[g] == gone);
        } else if g > at {
            assert(after.ids()[g - 1] == gone);
        }
        assert(g == at);
        assert forall|other: Seq<char>| #[trigger]
            before.has(other) && other != gone implies after.has(other) by {
            let k = choose|k: int| 0 <= k < before.ids().len() && before.ids()[k] == other;
            if k < at {
                assert(after.ids()[k] == other);
            } else {
                assert(after.ids()[k - 1] == other);
            }
        }
    }
}

/// A sensor is found under its name in any case and with any white space around
/// it.
pub proof fn law_names_are_normalized_once(device_id: Seq<char>)
    ensures
        normalized(normalized(device_id)) == normalized(device_id),
{
    text::lemma_lower_trim_idempotent(device_id);
}

/// A sensor is stale from the moment on at which more than the time to live has
/// passed since it was last heard of, and not before, nor if it was heard of
/// later than now.
pub proof fn law_sensors_are_stale_after_the_time_to_live(now: u64, last_seen_ms: u64, ttl_ms: u64)
    ensures
        is_stale(now, last_seen_ms, ttl_ms) <==> now > last_seen_ms + ttl_ms,
        !is_stale(last_seen_ms, last_seen_ms, ttl_ms),
{
}

/// A name is found whatever its case, and whatever whitespace is around it: it
/// is kept without either.
pub proof fn law_case_and_whitespace_of_names_do_not_matter(a: Seq<char>, b: Seq<char>)
    ensures
        text::ascii_lowered(a) == text::ascii_lowered(b) ==> normalized(a) == normalized(b),
        normalized(text::trimmed(a)) == normalized(a),
        normalized(a).len() > 0 ==> !text::is_whitespace(normalized(a)[0]) && !text::is_whitespace(
            normalized(a).last(),
        ),
        forall|i: int|
            0 <= i < normalized(a).len() ==> !('A' <= #[trigger] normalized(a)[i] <= 'Z'),
{
    text::law_trim_idempotent(a, CharClass::Whitespace);
    text::lemma_trim_lowered(a);
    text::lemma_trim_lowered(b);
    text::lemma_trim_ends(text::ascii_lowered(a), CharClass::Whitespace);
    assert forall|i: int| 0 <= i < normalized(a).len() implies !('A' <= #[trigger] normalized(a)[i]
        <= 'Z') by {
        text::law_only_capital_letters_are_lowered(text::trimmed(a), i);
    }
}

/// What was heard of a sensor is what is found under its name right after, in any
/// case and with any whitespace around it, and it is not stale until more than the
/// time to live has passed.
pub proof fn law_what_was_heard_is_found(
    cache: &mut CacheState,
    msg: SensorMessage,
    heard: u64,
    event: CacheEvent,
    name: &str,
    now: u64,
    found: Option<(SensorState, bool)>,
)
    requires
        cache.wf(),
        call_ensures(CacheState::update_sensor, (cache, &msg, heard), event),
        call_ensures(CacheState::snapshot_sensor, (&*final(cache), name, now), found),
        text::ascii_lowered(text::trimmed(name@)) == text::ascii_lowered(
            text::trimmed(msg.device_id@),
        ),
    ensures
        found matches Some((state, stale)) && {
            &&& state.last_seen_ms == heard
            &&& state.value@ == msg.data@
            &&& stale <==> now > heard + old(cache).ttl()
        },
{
    let after = *final(cache);
    let id = normalized(msg.device_id@);
    let state = StateView { last_seen_ms: heard, value: msg.data@ };
    law_update_is_read_back(*cache, after, id, state);
    let i = choose|i: int|
        0 <= i < after.ids().len() && #[trigger] after.ids()[i] == id && after.states()[i] == state;
    assert(after.ids().contains(after.ids()[i]));
    if let Some((held, stale)) = found {
        let j = choose|j: int|
            0 <= j < after.ids().len() && #[trigger] after.ids()[j] == id && after.states()[j]
                == held@;
        assert(i == j);
    }
}

/// A message on the state of a device leaves the cache as it is.
pub proof fn law_states_of_devices_are_not_kept(
    cache: &mut CacheState,
    msg: HandledMessage,
    now_ms: u64,
    event: Option<CacheEvent>,
)
    requires
        call_ensures(CacheState::update, (cache, &msg, now_ms), event),
    ensures
        msg is Status ==> *final(cache) == *old(cache),
        event is Some <==> msg is Sensor,
        final(cache).ttl() == old(cache).ttl(),
        final(cache).cap() == old(cache).cap(),
{
}

} // verus!
