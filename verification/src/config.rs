//! The configuration of the service, out of environment variables.

use vstd::prelude::*;

use crate::text;
use crate::text::CharClass;

verus! {

/// Environment variables: names and values.
pub type Environment = Seq<(Seq<char>, Seq<char>)>;

/// The names and values of some variables.
pub open spec fn env_view(vars: Seq<(String, String)>) -> Environment {
    vars.map_values(|v: (String, String)| (v.0@, v.1@))
}

/// The value of the first variable with this name, from variable `i` on.
pub open spec fn lookup(env: Environment, name: Seq<char>, i: int) -> Option<Seq<char>>
    decreases env.len() - i,
{
    if i < 0 || i >= env.len() {
        None
    } else if env[i].0 == name {
        Some(env[i].1)
    } else {
        lookup(env, name, i + 1)
    }
}

/// The value of a variable without the white space around it, if that leaves
/// anything.
pub open spec fn setting(env: Environment, name: Seq<char>) -> Option<Seq<char>> {
    match lookup(env, name, 0) {
        Some(value) => if text::trimmed(value).len() > 0 {
            Some(text::trimmed(value))
        } else {
            None
        },
        None => None,
    }
}

/// The value of a variable, or a default.
pub open spec fn setting_or(env: Environment, name: Seq<char>, default: Seq<char>) -> Seq<char> {
    match setting(env, name) {
        Some(value) => value,
        None => default,
    }
}

/// The number in a variable, or a default; `None` if there is something else in
/// it.
pub open spec fn number_or(env: Environment, name: Seq<char>, default: nat, max: nat) -> Option<
    nat,
> {
    match setting(env, name) {
        Some(value) => text::parsed_unsigned(value, max),
        None => Some(default),
    }
}

/// The flag in a variable, or a default; `None` if there is something else in
/// it.
pub open spec fn flag_or(env: Environment, name: Seq<char>, default: bool) -> Option<bool> {
    match setting(env, name) {
        Some(value) => if value == "true"@ {
            Some(true)
        } else if value == "false"@ {
            Some(false)
        } else {
            None
        },
        None => Some(default),
    }
}

/// Whether a variable configures a topic.
pub open spec fn is_topic_name(name: Seq<char>) -> bool {
    name.len() >= 11 && name.take(11) == "MQTT_TOPIC_"@
}

/// Whether some variables have one with this name.
pub open spec fn has_name(env: Environment, name: Seq<char>) -> bool {
    exists|i: int| 0 <= i < env.len() && (#[trigger] env[i]).0 == name
}

/// Some variables with one more. It takes the place of one with its name.
pub open spec fn with_variable(env: Environment, var: (Seq<char>, Seq<char>)) -> Environment {
    if has_name(env, var.0) {
        env.map_values(|v: (Seq<char>, Seq<char>)| if v.0 == var.0 { var } else { v })
    } else {
        env.push(var)
    }
}

/// The topics that are configured, under the names of their variables.
pub open spec fn topics(env: Environment) -> Environment
    decreases env.len(),
{
    if env.len() == 0 {
        env
    } else if is_topic_name(env.last().0) {
        with_variable(topics(env.drop_last()), env.last())
    } else {
        topics(env.drop_last())
    }
}

/// Whether no two variables have the same name.
pub open spec fn names_differ(env: Environment) -> bool {
    forall|i: int, j: int| 0 <= i < j < env.len() ==> (#[trigger] env[i]).0 != (#[trigger] env[j]).0
}

/// No two of the topics that are configured have the same name.
proof fn lemma_topic_names_differ(env: Environment)
    ensures
        names_differ(topics(env)),
    decreases env.len(),
{
    if env.len() > 0 {
        lemma_topic_names_differ(env.drop_last());
    }
}

/// A variable that is not among these is not set.
proof fn lemma_not_set(env: Environment, name: Seq<char>, i: int)
    requires
        forall|k: int| 0 <= k < env.len() ==> (#[trigger] env[k]).0 != name,
        0 <= i,
    ensures
        lookup(env, name, i) is None,
    decreases env.len() - i,
{
    if i < env.len() {
        lemma_not_set(env, name, i + 1);
    }
}

/// Why there is no configuration.
#[derive(Debug)]
pub struct ConfigError {
    pub message: String,
}

/// Selects which input transport the service consumes from.
#[derive(Debug, Clone, Copy, PartialEq, Eq, Structural)]
pub enum InputSourceKind {
    Mqtt,
}

/// Selects which output sink the service persists ingested messages to.
#[derive(Debug, Clone, Copy, PartialEq, Eq, Structural)]
pub enum OutputSinkKind {
    Influx,
}

/// The message on an input source that there is not.
pub open spec fn unsupported_input(name: Seq<char>) -> Seq<char> {
    "unsupported INPUT_SOURCE '"@ + name + "': only 'mqtt' is currently implemented"@
}

/// The message on an output sink that there is not.
pub open spec fn unsupported_output(name: Seq<char>) -> Seq<char> {
    "unsupported OUTPUT_SINK '"@ + name + "': only 'influx' is currently implemented"@
}

/// The name of a kind as it is compared: without white space around it, in
/// lower case.
pub open spec fn kind_name(raw: Seq<char>) -> Seq<char> {
    let name = text::trimmed(raw);
    if vstd::utf8::is_ascii_chars(name) {
        text::ascii_lowered(name)
    } else {
        text::lowercase(name)
    }
}

impl InputSourceKind {
    /// The kind with this name, which is in lower case.
    pub fn from_name(name: &str) -> (r: Result<Self, ConfigError>)
        ensures
            match r {
                Ok(_) => name@ == "mqtt"@,
                Err(e) => name@ != "mqtt"@ && e.message@ == unsupported_input(name@),
            },
    {
        if text::same_text(name, "mqtt") {
            return Ok(InputSourceKind::Mqtt);
        }
        let mut message = String::from_str("unsupported INPUT_SOURCE '");
        message.append(name);
        message.append("': only 'mqtt' is currently implemented");
        Err(ConfigError { message })
    }

    /// The kind with this name, in any case and with any white space around it.
    pub fn parse(raw: &str) -> (r: Result<Self, ConfigError>)
        ensures
            vstd::utf8::is_ascii_chars(text::trimmed(raw@)) ==> (r is Ok <==> text::ascii_lowered(
                text::trimmed(raw@),
            ) == "mqtt"@),
            match r {
                Ok(_) => kind_name(raw@) == "mqtt"@,
                Err(e) => kind_name(raw@) != "mqtt"@ && e.message@ == unsupported_input(
                    kind_name(raw@),
                ),
            },
    {
        let trimmed = text::trim(raw, CharClass::Whitespace);
        let name = text::to_lowercase(trimmed.as_str());
        InputSourceKind::from_name(name.as_str())
    }
}

impl OutputSinkKind {
    /// The kind with this name, which is in lower case.
    pub fn from_name(name: &str) -> (r: Result<Self, ConfigError>)
        ensures
            match r {
                Ok(_) => name@ == "influx"@,
                Err(e) => name@ != "influx"@ && e.message@ == unsupported_output(name@),
            },
    {
        if text::same_text(name, "influx") {
            return Ok(OutputSinkKind::Influx);
        }
        let mut message = String::from_str("unsupported OUTPUT_SINK '");
        message.append(name);
        message.append("': only 'influx' is currently implemented");
        Err(ConfigError { message })
    }

    /// The kind with this name, in any case and with any white space around it.
    pub fn parse(raw: &str) -> (r: Result<Self, ConfigError>)
        ensures
            vstd::utf8::is_ascii_chars(text::trimmed(raw@)) ==> (r is Ok <==> text::ascii_lowered(
                text::trimmed(raw@),
            ) == "influx"@),
            match r {
                Ok(_) => kind_name(raw@) == "influx"@,
                Err(e) => kind_name(raw@) != "influx"@ && e.message@ == unsupported_output(
                    kind_name(raw@),
                ),
            },
    {
        let trimmed = text::trim(raw, CharClass::Whitespace);
        let name = text::to_lowercase(trimmed.as_str());
        OutputSinkKind::from_name(name.as_str())
    }
}

/// MQTT broker connection settings. They hold secrets, and have no `Debug` form
/// but [`MqttSourceConfig::debug_text`].
pub struct MqttSourceConfig {
    pub host: String,
    pub port: u16,
    pub username: Option<String>,
    pub password: Option<String>,
    pub client_id: String,
}

/// InfluxDB connection settings. They hold a secret, and have no `Debug` form but
/// [`InfluxSinkConfig::debug_text`].
pub struct InfluxSinkConfig {
    pub url: String,
    pub org: String,
    pub bucket: String,
    pub token: String,
}

/// The text form of the settings of a broker.
pub open spec fn mqtt_text(host: Seq<char>, port: u16, client_id: Seq<char>) -> Seq<char> {
    "MqttSourceConfig { host: "@ + text::quoted(host) + ", port: "@ + text::decimal(port as nat)
        + ", client_id: "@ + text::quoted(client_id) + " }"@
}

/// The text form of the settings of a database.
pub open spec fn influx_text(url: Seq<char>, org: Seq<char>, bucket: Seq<char>) -> Seq<char> {
    "InfluxSinkConfig { url: "@ + text::quoted(url) + ", org: "@ + text::quoted(org)
        + ", bucket: "@ + text::quoted(bucket) + ", token: \"[REDACTED]\" }"@
}

impl MqttSourceConfig {
    /// The settings as they are logged: without the login.
    pub open spec fn spec_text(&self) -> Seq<char> {
        mqtt_text(self.host@, self.port, self.client_id@)
    }

    /// The settings as they are logged: without the login.
    pub fn debug_text(&self) -> (s: String)
        ensures
            s@ == self.spec_text(),
    {
        let mut s = String::from_str("MqttSourceConfig { host: ");
        s.append(text::quote(self.host.as_str()).as_str());
        s.append(", port: ");
        s.append(text::decimal_text(self.port as u64).as_str());
        s.append(", client_id: ");
        s.append(text::quote(self.client_id.as_str()).as_str());
        s.append(" }");
        s
    }
}

impl InfluxSinkConfig {
    /// The settings as they are logged: without the token.
    pub open spec fn spec_text(&self) -> Seq<char> {
        influx_text(self.url@, self.org@, self.bucket@)
    }

    /// The settings as they are logged: without the token.
    pub fn debug_text(&self) -> (s: String)
        ensures
            s@ == self.spec_text(),
    {
        let mut s = String::from_str("InfluxSinkConfig { url: ");
        s.append(text::quote(self.url.as_str()).as_str());
        s.append(", org: ");
        s.append(text::quote(self.org.as_str()).as_str());
        s.append(", bucket: ");
        s.append(text::quote(self.bucket.as_str()).as_str());
        s.append(", token: \"[REDACTED]\" }");
        s
    }
}

/// The text form of the settings tells nothing of the secrets in them: whatever
/// these are, it is the same.
pub proof fn law_text_of_settings_holds_no_secret(
    a: MqttSourceConfig,
    b: MqttSourceConfig,
    c: InfluxSinkConfig,
    d: InfluxSinkConfig,
)
    requires
        a.host == b.host,
        a.port == b.port,
        a.client_id == b.client_id,
        c.url == d.url,
        c.org == d.org,
        c.bucket == d.bucket,
    ensures
        a.spec_text() == b.spec_text(),
        c.spec_text() == d.spec_text(),
{
}

/// The configuration of the service.
pub struct Config {
    /// Input source selection.
    pub input_source: InputSourceKind,
    /// MQTT connection settings.
    pub mqtt: Option<MqttSourceConfig>,
    /// Topics, under the names of their variables.
    pub mqtt_topics: Vec<(String, String)>,
    /// Output sink selection.
    pub output_sink: OutputSinkKind,
    /// InfluxDB connection settings.
    pub influx: Option<InfluxSinkConfig>,
    pub batch_size: usize,
    pub flush_interval_ms: u64,
    /// The directory of the log.
    pub wal_dir: String,
    pub wal_segment_bytes: u64,
    pub wal_queue_capacity: usize,
    pub input_queue_capacity: usize,
    pub enforce_topic_device_match: bool,
    pub metrics_bind: String,
    pub cache_ttl_ms: u64,
    pub cache_bind: String,
    pub cache_buffer: usize,
}

/// The topics that are configured, or else the sensor topic and the dead-letter
/// topic of `MQTT_TOPIC` and `DLQ_TOPIC`, for which there are defaults.
pub open spec fn topics_or_default(env: Environment) -> Environment {
    if topics(env).len() > 0 {
        topics(env)
    } else {
        seq![
            ("MQTT_TOPIC_SENSOR"@, setting_or(env, "MQTT_TOPIC"@, "smarthome/+/bme680"@)),
            ("MQTT_TOPIC_DLQ"@, setting_or(env, "DLQ_TOPIC"@, "smarthome/_dlq/ingest"@)),
        ]
    }
}

/// No two topics have the same name.
pub proof fn law_topic_names_differ(env: Environment)
    ensures
        names_differ(topics_or_default(env)),
{
    lemma_topic_names_differ(env);
    reveal_strlit("MQTT_TOPIC_SENSOR");
    reveal_strlit("MQTT_TOPIC_DLQ");
    assert("MQTT_TOPIC_SENSOR"@.len() != "MQTT_TOPIC_DLQ"@.len());
}

/// Whether a variable is not set, or has this kind in it.
pub open spec fn kind_is(env: Environment, name: Seq<char>, kind: Seq<char>) -> bool {
    setting(env, name) matches Some(raw) ==> kind_name(raw) == kind
}

/// The first thing that is wrong with an environment, if anything is.
pub open spec fn first_problem(env: Environment) -> Option<Seq<char>> {
    if !kind_is(env, "INPUT_SOURCE"@, "mqtt"@) {
        Some(unsupported_input(kind_name(setting(env, "INPUT_SOURCE"@)->0)))
    } else if number_or(env, "MQTT_PORT"@, 1883, u16::MAX as nat) is None {
        Some("MQTT_PORT must be a u16"@)
    } else if !kind_is(env, "OUTPUT_SINK"@, "influx"@) {
        Some(unsupported_output(kind_name(setting(env, "OUTPUT_SINK"@)->0)))
    } else if setting(env, "INFLUX_TOKEN"@) is None {
        Some("INFLUX_TOKEN is required when OUTPUT_SINK=influx"@)
    } else {
        first_number_problem(env)
    }
}

/// The first thing that is wrong with the numbers and other settings that do
/// not belong to the source or the sink.
pub open spec fn first_number_problem(env: Environment) -> Option<Seq<char>> {
    if number_or(env, "BATCH_SIZE"@, 500, usize::MAX as nat) is None {
        Some("BATCH_SIZE must be a valid usize"@)
    } else if number_or(env, "FLUSH_INTERVAL_MS"@, 1000, u64::MAX as nat) is None {
        Some("FLUSH_INTERVAL_MS must be a valid u64"@)
    } else if number_or(env, "WAL_SEGMENT_BYTES"@, 67108864, u64::MAX as nat) is None {
        Some("WAL_SEGMENT_BYTES must be a valid u64"@)
    } else if number_or(env, "WAL_QUEUE_CAPACITY"@, 16384, usize::MAX as nat) is None {
        Some("WAL_QUEUE_CAPACITY must be a valid usize"@)
    } else if number_or(env, "INPUT_QUEUE_CAPACITY"@, 16384, usize::MAX as nat) is None {
        Some("INPUT_QUEUE_CAPACITY must be a valid usize"@)
    } else if flag_or(env, "ENFORCE_TOPIC_DEVICE_MATCH"@, true) is None {
        Some("ENFORCE_TOPIC_DEVICE_MATCH must be a valid bool"@)
    } else if number_or(env, "CACHE_TTL_MS"@, 300000, u64::MAX as nat) is None {
        Some("CACHE_TTL_MS must be a valid u64"@)
    } else if number_or(env, "CACHE_BUFFER"@, 1024, usize::MAX as nat) is None {
        Some("CACHE_BUFFER must be a valid usize"@)
    } else {
        None
    }
}

/// The view of an optional setting.
pub open spec fn optional(s: Option<String>) -> Option<Seq<char>> {
    match s {
        Some(s) => Some(s@),
        None => None,
    }
}

impl MqttSourceConfig {
    /// Whether these are the settings in an environment, read at a time that is
    /// this many seconds after the epoch.
    pub open spec fn is_of(&self, env: Environment, now_secs: i64) -> bool {
        &&& self.host@ == setting_or(env, "MQTT_HOST"@, "nanomq"@)
        &&& Some(self.port as nat) == number_or(env, "MQTT_PORT"@, 1883, u16::MAX as nat)
        &&& optional(self.username) == setting(env, "MQTT_USERNAME"@)
        &&& optional(self.password) == setting(env, "MQTT_PASSWORD"@)
        &&& self.client_id@ == setting_or(env, "MQTT_CLIENT_ID"@, "smarthome-ingest"@) + "-"@
            + text::signed_decimal(now_secs as int)
    }
}

impl InfluxSinkConfig {
    /// Whether these are the settings in an environment.
    pub open spec fn is_of(&self, env: Environment) -> bool {
        &&& self.url@ == setting_or(env, "INFLUX_URL"@, "http://influxdb:8086"@)
        &&& self.org@ == setting_or(env, "INFLUX_ORG"@, "smarthome"@)
        &&& self.bucket@ == setting_or(env, "INFLUX_BUCKET"@, "sensors"@)
        &&& Some(self.token@) == setting(env, "INFLUX_TOKEN"@)
    }
}

impl Config {
    /// Whether these are the settings in an environment that do not belong to
    /// the source or the sink.
    pub open spec fn common_is_of(&self, env: Environment) -> bool {
        &&& Some(self.batch_size as nat) == number_or(env, "BATCH_SIZE"@, 500, usize::MAX as nat)
        &&& Some(self.flush_interval_ms as nat) == number_or(
            env,
            "FLUSH_INTERVAL_MS"@,
            1000,
            u64::MAX as nat,
        )
        &&& self.wal_dir@ == setting_or(env, "WAL_DIR"@, "wal"@)
        &&& Some(self.wal_segment_bytes as nat) == number_or(
            env,
            "WAL_SEGMENT_BYTES"@,
            67108864,
            u64::MAX as nat,
        )
        &&& Some(self.wal_queue_capacity as nat) == number_or(
            env,
            "WAL_QUEUE_CAPACITY"@,
            16384,
            usize::MAX as nat,
        )
        &&& Some(self.input_queue_capacity as nat) == number_or(
            env,
            "INPUT_QUEUE_CAPACITY"@,
            16384,
            usize::MAX as nat,
        )
        &&& Some(self.enforce_topic_device_match) == flag_or(
            env,
            "ENFORCE_TOPIC_DEVICE_MATCH"@,
            true,
        )
        &&& self.metrics_bind@ == setting_or(env, "METRICS_BIND"@, "0.0.0.0:9090"@)
        &&& Some(self.cache_ttl_ms as nat) == number_or(
            env,
            "CACHE_TTL_MS"@,
            300000,
            u64::MAX as nat,
        )
        &&& self.cache_bind@ == setting_or(env, "CACHE_BIND"@, "0.0.0.0:8080"@)
        &&& Some(self.cache_buffer as nat) == number_or(
            env,
            "CACHE_BUFFER"@,
            1024,
            usize::MAX as nat,
        )
    }

    /// Whether this is the configuration in an environment, read at a time that
    /// is this many seconds after the epoch.
    pub open spec fn is_of(&self, env: Environment, now_secs: i64) -> bool {
        &&& self.mqtt matches Some(mqtt) && mqtt.is_of(env, now_secs)
        &&& env_view(self.mqtt_topics@) == topics_or_default(env)
        &&& self.influx matches Some(influx) && influx.is_of(env)
        &&& self.common_is_of(env)
    }
}

/// The value of a variable without the white space around it, if that leaves
/// anything.
fn env_var(vars: &Vec<(String, String)>, name: &str) -> (r: Option<String>)
    ensures
        optional(r) == setting(env_view(vars@), name@),
{
    let ghost env = env_view(vars@);
    let mut i: usize = 0;
    while i < vars.len()
        invariant
            i <= vars@.len(),
            env == env_view(vars@),
            lookup(env, name@, 0) == lookup(env, name@, i as int),
        decreases vars@.len() - i,
    {
        proof {
            assert(env[i as int] == (vars@[i as int].0@, vars@[i as int].1@));
        }
        if text::same_text(vars[i].0.as_str(), name) {
            let value = text::trim(vars[i].1.as_str(), CharClass::Whitespace);
            if text::chars_of(value.as_str()).len() == 0 {
                return None;
            }
            return Some(value);
        }
        i = i + 1;
    }
    None
}

/// The value of a variable, or a default.
fn env_var_or(vars: &Vec<(String, String)>, name: &str, default: &str) -> (r: String)
    ensures
        r@ == setting_or(env_view(vars@), name@, default@),
{
    match env_var(vars, name) {
        Some(value) => value,
        None => String::from_str(default),
    }
}

/// The error with this message.
fn problem(message: &str) -> (e: ConfigError)
    ensures
        e.message@ == message@,
{
    ConfigError { message: String::from_str(message) }
}

/// The value of a variable, or this error.
fn required(vars: &Vec<(String, String)>, name: &str, message: &str) -> (r: Result<
    String,
    ConfigError,
>)
    ensures
        match setting(env_view(vars@), name@) {
            Some(value) => r matches Ok(s) && s@ == value,
            None => r matches Err(e) && e.message@ == message@,
        },
{
    match env_var(vars, name) {
        Some(value) => Ok(value),
        None => Err(problem(message)),
    }
}

/// The number in a variable, or a default, or this error.
fn number(
    vars: &Vec<(String, String)>,
    name: &str,
    default: u64,
    max: u64,
    message: &str,
) -> (r: Result<u64, ConfigError>)
    requires
        default <= max,
    ensures
        match number_or(env_view(vars@), name@, default as nat, max as nat) {
            Some(n) => r matches Ok(m) && m == n && n <= max,
            None => r matches Err(e) && e.message@ == message@,
        },
{
    match env_var(vars, name) {
        Some(value) => match text::parse_unsigned(value.as_str(), max) {
            Some(n) => Ok(n),
            None => Err(problem(message)),
        },
        None => Ok(default),
    }
}

/// The flag in a variable, or a default, or this error.
fn flag(vars: &Vec<(String, String)>, name: &str, default: bool, message: &str) -> (r: Result<
    bool,
    ConfigError,
>)
    ensures
        match flag_or(env_view(vars@), name@, default) {
            Some(b) => r matches Ok(c) && c == b,
            None => r matches Err(e) && e.message@ == message@,
        },
{
    match env_var(vars, name) {
        Some(value) => {
            if text::same_text(value.as_str(), "true") {
                Ok(true)
            } else if text::same_text(value.as_str(), "false") {
                Ok(false)
            } else {
                Err(problem(message))
            }
        },
        None => Ok(default),
    }
}

/// Adds a topic under a name, in place of another one under that name.
fn put_topic(topics: &mut Vec<(String, String)>, name: String, topic: String)
    requires
        names_differ(env_view(old(topics)@)),
    ensures
        env_view(final(topics)@) == with_variable(env_view(old(topics)@), (name@, topic@)),
{
    let ghost env = env_view(topics@);
    let ghost var = (name@, topic@);
    let mut i: usize = 0;
    while i < topics.len()
        invariant
            i <= topics@.len(),
            *topics == *old(topics),
            env == env_view(topics@),
            var == (name@, topic@),
            names_differ(env),
            forall|j: int| 0 <= j < i ==> (#[trigger] env[j]).0 != name@,
        decreases topics@.len() - i,
    {
        if text::same_text(topics[i].0.as_str(), name.as_str()) {
            proof {
                assert(env[i as int].0 == var.0);
            }
            topics[i] = (name, topic);
            proof {
                assert(env_view(topics@) =~= with_variable(env, var)) by {
                    assert forall|j: int| 0 <= j < env.len() implies #[trigger] env_view(topics@)[j]
                        == with_variable(env, var)[j] by {
                        assert(j != i ==> env[j].0 != env[i as int].0);
                    }
                }
            }
            return ;
        }
        i = i + 1;
    }
    topics.push((name, topic));
    proof {
        assert(env_view(topics@) =~= env.push(var));
    }
}

/// The topics that are configured.
fn configured_topics(vars: &Vec<(String, String)>) -> (r: Vec<(String, String)>)
    ensures
        env_view(r@) == topics(env_view(vars@)),
{
    let mut r: Vec<(String, String)> = Vec::new();
    let ghost env = env_view(vars@);
    let mut i: usize = 0;
    proof {
        assert(env_view(r@) =~= topics(env.take(0)));
    }
    while i < vars.len()
        invariant
            i <= vars@.len(),
            env == env_view(vars@),
            env_view(r@) == topics(env.take(i as int)),
        decreases vars@.len() - i,
    {
        proof {
            assert(env.take(i + 1).drop_last() =~= env.take(i as int));
            assert(env.take(i + 1).last() == (vars@[i as int].0@, vars@[i as int].1@));
            lemma_topic_names_differ(env.take(i as int));
        }
        if has_topic_prefix(vars[i].0.as_str()) {
            put_topic(&mut r, vars[i].0.clone(), vars[i].1.clone());
        }
        i = i + 1;
    }
    proof {
        assert(env.take(i as int) =~= env);
    }
    r
}

/// The topics that are configured, or those that are used otherwise.
fn topics_from_env(vars: &Vec<(String, String)>) -> (r: Vec<(String, String)>)
    ensures
        env_view(r@) == topics_or_default(env_view(vars@)),
{
    let configured = configured_topics(vars);
    proof {
        assert(env_view(configured@).len() == configured@.len());
    }
    if configured.len() > 0 {
        return configured;
    }
    let mut r: Vec<(String, String)> = Vec::new();
    r.push(
        (
            String::from_str("MQTT_TOPIC_SENSOR"),
            env_var_or(vars, "MQTT_TOPIC", "smarthome/+/bme680"),
        ),
    );
    r.push(
        (
            String::from_str("MQTT_TOPIC_DLQ"),
            env_var_or(vars, "DLQ_TOPIC", "smarthome/_dlq/ingest"),
        ),
    );
    proof {
        assert(env_view(r@) =~= topics_or_default(env_view(vars@)));
    }
    r
}

fn has_topic_prefix(name: &str) -> (b: bool)
    ensures
        b == is_topic_name(name@),
{
    let cs = text::chars_of(name);
    if cs.len() < 11 {
        return false;
    }
    let prefix = text::string_of(&cs, 0, 11);
    proof {
        assert(cs@.subrange(0, 11) =~= name@.take(11));
    }
    text::same_text(prefix.as_str(), "MQTT_TOPIC_")
}

/// The settings of the broker.
fn mqtt_from_env(vars: &Vec<(String, String)>, now_secs: i64) -> (r: Result<
    MqttSourceConfig,
    ConfigError,
>)
    ensures
        match number_or(env_view(vars@), "MQTT_PORT"@, 1883, u16::MAX as nat) {
            Some(_) => r matches Ok(mqtt) && mqtt.is_of(env_view(vars@), now_secs),
            None => r matches Err(e) && e.message@ == "MQTT_PORT must be a u16"@,
        },
{
    let host = env_var_or(vars, "MQTT_HOST", "nanomq");
    let port: u64 = match number(
        vars,
        "MQTT_PORT",
        1883,
        u16::MAX as u64,
        "MQTT_PORT must be a u16",
    ) {
        Ok(n) => n,
        Err(e) => {
            return Err(e);
        },
    };
    let username = env_var(vars, "MQTT_USERNAME");
    let password = env_var(vars, "MQTT_PASSWORD");
    let mut client_id = env_var_or(vars, "MQTT_CLIENT_ID", "smarthome-ingest");
    client_id.append("-");
    client_id.append(text::signed_decimal_text(now_secs).as_str());
    Ok(MqttSourceConfig { host, port: port as u16, username, password, client_id })
}

/// The settings of the database.
fn influx_from_env(vars: &Vec<(String, String)>) -> (r: Result<InfluxSinkConfig, ConfigError>)
    ensures
        match setting(env_view(vars@), "INFLUX_TOKEN"@) {
            Some(_) => r matches Ok(influx) && influx.is_of(env_view(vars@)),
            None => r matches Err(e) && e.message@
                == "INFLUX_TOKEN is required when OUTPUT_SINK=influx"@,
        },
{
    let url = env_var_or(vars, "INFLUX_URL", "http://influxdb:8086");
    let org = env_var_or(vars, "INFLUX_ORG", "smarthome");
    let bucket = env_var_or(vars, "INFLUX_BUCKET", "sensors");
    match required(vars, "INFLUX_TOKEN", "INFLUX_TOKEN is required when OUTPUT_SINK=influx") {
        Ok(token) => Ok(InfluxSinkConfig { url, org, bucket, token }),
        Err(e) => Err(e),
    }
}

impl Config {
    /// Reads the configuration out of environment variables, at a time that is
    /// this many seconds after the epoch. The first thing that is wrong is
    /// reported.
    pub fn from_env(vars: &Vec<(String, String)>, now_secs: i64) -> (r: Result<Self, ConfigError>)
        ensures
            match first_problem(env_view(vars@)) {
                None => r matches Ok(config) && config.is_of(env_view(vars@), now_secs),
                Some(message) => r matches Err(e) && e.message@ == message,
            },
    {
        let input_source = match env_var(vars, "INPUT_SOURCE") {
            Some(raw) => match InputSourceKind::parse(raw.as_str()) {
                Ok(kind) => kind,
                Err(e) => {
                    return Err(e);
                },
            },
            None => InputSourceKind::Mqtt,
        };
        let mqtt = match mqtt_from_env(vars, now_secs) {
            Ok(mqtt) => mqtt,
            Err(e) => {
                return Err(e);
            },
        };
        let mqtt_topics = topics_from_env(vars);
        let output_sink = match env_var(vars, "OUTPUT_SINK") {
            Some(raw) => match OutputSinkKind::parse(raw.as_str()) {
                Ok(kind) => kind,
                Err(e) => {
                    return Err(e);
                },
            },
            None => OutputSinkKind::Influx,
        };
        let influx = match influx_from_env(vars) {
            Ok(influx) => influx,
            Err(e) => {
                return Err(e);
            },
        };
        Config::with_connections(vars, input_source, mqtt, mqtt_topics, output_sink, influx)
    }

    /// Reads the settings that do not belong to the source or the sink.
    fn with_connections(
        vars: &Vec<(String, String)>,
        input_source: InputSourceKind,
        mqtt: MqttSourceConfig,
        mqtt_topics: Vec<(String, String)>,
        output_sink: OutputSinkKind,
        influx: InfluxSinkConfig,
    ) -> (r: Result<Self, ConfigError>)
        ensures
            match first_number_problem(env_view(vars@)) {
                None => r matches Ok(config) && config.common_is_of(env_view(vars@)) && config.mqtt
                    == Some(mqtt) && config.mqtt_topics == mqtt_topics && config.influx == Some(
                    influx,
                ),
                Some(message) => r matches Err(e) && e.message@ == message,
            },
    {
        let batch_size: u64 = match number(
            vars,
            "BATCH_SIZE",
            500,
            usize::MAX as u64,
            "BATCH_SIZE must be a valid usize",
        ) {
            Ok(n) => n,
            Err(e) => {
                return Err(e);
            },
        };
        let flush_interval_ms: u64 = match number(
            vars,
            "FLUSH_INTERVAL_MS",
            1000,
            u64::MAX,
            "FLUSH_INTERVAL_MS must be a valid u64",
        ) {
            Ok(n) => n,
            Err(e) => {
                return Err(e);
            },
        };
        let wal_dir = env_var_or(vars, "WAL_DIR", "wal");
        let wal_segment_bytes: u64 = match number(
            vars,
            "WAL_SEGMENT_BYTES",
            67108864,
            u64::MAX,
            "WAL_SEGMENT_BYTES must be a valid u64",
        ) {
            Ok(n) => n,
            Err(e) => {
                return Err(e);
            },
        };
        let wal_queue_capacity: u64 = match number(
            vars,
            "WAL_QUEUE_CAPACITY",
            16384,
            usize::MAX as u64,
            "WAL_QUEUE_CAPACITY must be a valid usize",
        ) {
            Ok(n) => n,
            Err(e) => {
                return Err(e);
            },
        };
        let input_queue_capacity: u64 = match number(
            vars,
            "INPUT_QUEUE_CAPACITY",
            16384,
            usize::MAX as u64,
            "INPUT_QUEUE_CAPACITY must be a valid usize",
        ) {
            Ok(n) => n,
            Err(e) => {
                return Err(e);
            },
        };
        let enforce_topic_device_match = match flag(
            vars,
            "ENFORCE_TOPIC_DEVICE_MATCH",
            true,
            "ENFORCE_TOPIC_DEVICE_MATCH must be a valid bool",
        ) {
            Ok(b) => b,
            Err(e) => {
                return Err(e);
            },
        };
        let metrics_bind = env_var_or(vars, "METRICS_BIND", "0.0.0.0:9090");
        let cache_ttl_ms: u64 = match number(
            vars,
            "CACHE_TTL_MS",
            300000,
            u64::MAX,
            "CACHE_TTL_MS must be a valid u64",
        ) {
            Ok(n) => n,
            Err(e) => {
                return Err(e);
            },
        };
        let cache_bind = env_var_or(vars, "CACHE_BIND", "0.0.0.0:8080");
        let cache_buffer: u64 = match number(
            vars,
            "CACHE_BUFFER",
            1024,
            usize::MAX as u64,
            "CACHE_BUFFER must be a valid usize",
        ) {
            Ok(n) => n,
            Err(e) => {
                return Err(e);
            },
        };
        Ok(
            Config {
                input_source,
                mqtt: Some(mqtt),
                mqtt_topics,
                output_sink,
                influx: Some(influx),
                batch_size: batch_size as usize,
                flush_interval_ms,
                wal_dir,
                wal_segment_bytes,
                wal_queue_capacity: wal_queue_capacity as usize,
                input_queue_capacity: input_queue_capacity as usize,
                enforce_topic_device_match,
                metrics_bind,
                cache_ttl_ms,
                cache_bind,
                cache_buffer: cache_buffer as usize,
            },
        )
    }

    /// The topic under the variable `MQTT_TOPIC_` and this name.
    pub fn topic_route(&self, name: &str) -> (r: Option<&str>)
        ensures
            match lookup(env_view(self.mqtt_topics@), "MQTT_TOPIC_"@ + name@, 0) {
                Some(topic) => r matches Some(s) && s@ == topic,
                None => r is None,
            },
    {
        let mut key = String::from_str("MQTT_TOPIC_");
        key.append(name);
        let ghost env = env_view(self.mqtt_topics@);
        let mut i: usize = 0;
        while i < self.mqtt_topics.len()
            invariant
                i <= self.mqtt_topics@.len(),
                env == env_view(self.mqtt_topics@),
                key@ == "MQTT_TOPIC_"@ + name@,
                lookup(env, key@, 0) == lookup(env, key@, i as int),
            decreases self.mqtt_topics@.len() - i,
        {
            proof {
                assert(env[i as int] == (self.mqtt_topics@[i as int].0@, self.mqtt_topics@[
                    i as int
                ].1@));
            }
            if text::same_text(self.mqtt_topics[i].0.as_str(), key.as_str()) {
                return Some(self.mqtt_topics[i].1.as_str());
            }
            i = i + 1;
        }
        None
    }

    /// The topics to subscribe to: all but the dead-letter queue.
    pub fn subscriptions(&self) -> (r: Vec<String>)
        ensures
            text::views(r@) == subscribed(env_view(self.mqtt_topics@)),
    {
        let mut r: Vec<String> = Vec::new();
        let ghost all = env_view(self.mqtt_topics@);
        let mut i: usize = 0;
        proof {
            assert(text::views(r@) =~= subscribed(all.take(0)));
        }
        while i < self.mqtt_topics.len()
            invariant
                i <= self.mqtt_topics@.len(),
                all == env_view(self.mqtt_topics@),
                text::views(r@) == subscribed(all.take(i as int)),
            decreases self.mqtt_topics@.len() - i,
        {
            let ghost before = r@;
            proof {
                assert(all.take(i + 1).drop_last() =~= all.take(i as int));
                assert(all.take(i + 1).last() == (
                    self.mqtt_topics@[i as int].0@,
                    self.mqtt_topics@[i as int].1@,
                ));
            }
            if !is_dlq_key(self.mqtt_topics[i].0.as_str()) {
                r.push(self.mqtt_topics[i].1.clone());
                proof {
                    assert(text::views(r@) =~= text::views(before).push(
                        self.mqtt_topics@[i as int].1@,
                    ));
                }
            }
            i = i + 1;
        }
        proof {
            assert(all.take(i as int) =~= all);
        }
        r
    }
}

/// Whether the name of a variable ends in `DLQ`.
pub open spec fn names_dlq(name: Seq<char>) -> bool {
    name.len() >= 3 && name.skip(name.len() - 3) == "DLQ"@
}

fn is_dlq_key(name: &str) -> (b: bool)
    ensures
        b == names_dlq(name@),
{
    let cs = text::chars_of(name);
    if cs.len() < 3 {
        return false;
    }
    let suffix = text::string_of(&cs, cs.len() - 3, cs.len());
    proof {
        assert(cs@.subrange(cs@.len() - 3, cs@.len() as int) =~= name@.skip(name@.len() - 3));
    }
    text::same_text(suffix.as_str(), "DLQ")
}

/// The topics to subscribe to.
pub open spec fn subscribed(topics: Environment) -> Seq<Seq<char>>
    decreases topics.len(),
{
    if topics.len() == 0 {
        Seq::<Seq<char>>::empty()
    } else if names_dlq(topics.last().0) {
        subscribed(topics.drop_last())
    } else {
        subscribed(topics.drop_last()).push(topics.last().1)
    }
}

/// Every topic is subscribed to but those of the dead-letter queue.
pub proof fn law_only_dead_letters_are_not_subscribed(topics: Environment)
    ensures
        forall|topic: Seq<char>| #[trigger]
            subscribed(topics).contains(topic) <==> exists|i: int|
                0 <= i < topics.len() && !names_dlq((#[trigger] topics[i]).0) && topics[i].1
                    == topic,
    decreases topics.len(),
{
    if topics.len() > 0 {
        let rest = topics.drop_last();
        let n = topics.len() - 1;
        law_only_dead_letters_are_not_subscribed(rest);
        assert forall|topic: Seq<char>| #[trigger] subscribed(topics).contains(topic) implies exists|
            i: int,
        |
            0 <= i < topics.len() && !names_dlq((#[trigger] topics[i]).0) && topics[i].1
                == topic by {
            if subscribed(rest).contains(topic) {
                let i = choose|i: int|
                    0 <= i < rest.len() && !names_dlq((#[trigger] rest[i]).0) && rest[i].1 == topic;
                assert(topics[i] == rest[i]);
            } else {
                assert(topics[n].1 == topic);
            }
        }
        assert forall|topic: Seq<char>|
            (exists|i: int|
                0 <= i < topics.len() && !names_dlq((#[trigger] topics[i]).0) && topics[i].1
                    == topic) implies #[trigger] subscribed(topics).contains(topic) by {
            let i = choose|i: int|
                0 <= i < topics.len() && !names_dlq((#[trigger] topics[i]).0) && topics[i].1
                    == topic;
            if i < n {
                assert(rest[i] == topics[i]);
                assert(subscribed(rest).contains(topic));
                let j = choose|j: int|
                    0 <= j < subscribed(rest).len() && subscribed(rest)[j] == topic;
                assert(subscribed(topics)[j] == topic);
            } else {
                assert(subscribed(topics).last() == topic);
            }
        }
    }
}

/// The token of the database is all that must be set: an environment with
/// nothing else in it is in order, and has the sensor topic and the dead-letter
/// topic that are used by default.
pub proof fn law_token_alone_is_enough(token: Seq<char>)
    requires
        text::trimmed(token).len() > 0,
    ensures
        first_problem(seq![("INFLUX_TOKEN"@, token)]) is None,
        topics_or_default(seq![("INFLUX_TOKEN"@, token)]) == seq![
            ("MQTT_TOPIC_SENSOR"@, "smarthome/+/bme680"@),
            ("MQTT_TOPIC_DLQ"@, "smarthome/_dlq/ingest"@),
        ],
{
    let env = seq![("INFLUX_TOKEN"@, token)];
    reveal_strlit("INFLUX_TOKEN");
    assert(env.drop_last() =~= Seq::<(Seq<char>, Seq<char>)>::empty());
    assert(topics(env.drop_last()).len() == 0);
    reveal_strlit("MQTT_TOPIC_");
    assert("INFLUX_TOKEN"@.take(11)[0] == 'I');
    assert("MQTT_TOPIC_"@[0] == 'M');
    reveal_strlit("INPUT_SOURCE");
    assert("INPUT_SOURCE"@[2] != "INFLUX_TOKEN"@[2]);
    lemma_not_set(env, "INPUT_SOURCE"@, 0);
    reveal_strlit("MQTT_PORT");
    lemma_not_set(env, "MQTT_PORT"@, 0);
    reveal_strlit("MQTT_TOPIC");
    lemma_not_set(env, "MQTT_TOPIC"@, 0);
    reveal_strlit("DLQ_TOPIC");
    lemma_not_set(env, "DLQ_TOPIC"@, 0);
    reveal_strlit("OUTPUT_SINK");
    lemma_not_set(env, "OUTPUT_SINK"@, 0);
    reveal_strlit("BATCH_SIZE");
    lemma_not_set(env, "BATCH_SIZE"@, 0);
    reveal_strlit("FLUSH_INTERVAL_MS");
    lemma_not_set(env, "FLUSH_INTERVAL_MS"@, 0);
    reveal_strlit("WAL_SEGMENT_BYTES");
    lemma_not_set(env, "WAL_SEGMENT_BYTES"@, 0);
    reveal_strlit("WAL_QUEUE_CAPACITY");
    lemma_not_set(env, "WAL_QUEUE_CAPACITY"@, 0);
    reveal_strlit("INPUT_QUEUE_CAPACITY");
    lemma_not_set(env, "INPUT_QUEUE_CAPACITY"@, 0);
    reveal_strlit("ENFORCE_TOPIC_DEVICE_MATCH");
    lemma_not_set(env, "ENFORCE_TOPIC_DEVICE_MATCH"@, 0);
    reveal_strlit("CACHE_TTL_MS");
    assert("CACHE_TTL_MS"@[0] != "INFLUX_TOKEN"@[0]);
    lemma_not_set(env, "CACHE_TTL_MS"@, 0);
    reveal_strlit("CACHE_BUFFER");
    assert("CACHE_BUFFER"@[0] != "INFLUX_TOKEN"@[0]);
    lemma_not_set(env, "CACHE_BUFFER"@, 0);
    assert(topics_or_default(env) =~= seq![
        ("MQTT_TOPIC_SENSOR"@, "smarthome/+/bme680"@),
        ("MQTT_TOPIC_DLQ"@, "smarthome/_dlq/ingest"@),
    ]);
}

/// A setting is the value of the first variable of that name, without the
/// whitespace around it. A variable that holds nothing else counts as not set.
pub proof fn law_settings_are_trimmed(env: Environment, name: Seq<char>, at: int)
    ensures
        0 <= at < env.len() && env[at].0 == name && (forall|i: int|
            0 <= i < at ==> (#[trigger] env[i]).0 != name) ==> {
            &&& text::trimmed(env[at].1).len() > 0 ==> setting(env, name) == Some(
                text::trimmed(env[at].1),
            )
            &&& text::trimmed(env[at].1).len() == 0 ==> setting(env, name) is None
        },
        (forall|i: int| 0 <= i < env.len() ==> (#[trigger] env[i]).0 != name) ==> setting(
            env,
            name,
        ) is None,
{
    if 0 <= at < env.len() && env[at].0 == name && (forall|i: int|
        0 <= i < at ==> (#[trigger] env[i]).0 != name) {
        lemma_lookup(env, name, 0, at);
    }
    if forall|i: int| 0 <= i < env.len() ==> (#[trigger] env[i]).0 != name {
        lemma_not_set(env, name, 0);
    }
}

proof fn lemma_lookup(env: Environment, name: Seq<char>, from: int, at: int)
    requires
        0 <= from <= at < env.len(),
        env[at].0 == name,
        forall|i: int| from <= i < at ==> (#[trigger] env[i]).0 != name,
    ensures
        lookup(env, name, from) == Some(env[at].1),
    decreases at - from,
{
    if from < at {
        assert(env[from].0 != name);
        lemma_lookup(env, name, from + 1, at);
    }
}

/// A number that is not set has its default; one that is set is the number that
/// is written there, and there is none if that is no number, or too great.
pub proof fn law_numbers_are_as_set(
    env: Environment,
    name: Seq<char>,
    default: nat,
    max: nat,
    n: nat,
)
    ensures
        setting(env, name) is None ==> number_or(env, name, default, max) == Some(default),
        setting(env, name) == Some(text::decimal(n)) && n <= max ==> number_or(
            env,
            name,
            default,
            max,
        ) == Some(n),
        setting(env, name) == Some(text::decimal(n)) && n > max ==> number_or(
            env,
            name,
            default,
            max,
        ) is None,
{
    text::law_numbers_up_to_the_greatest_are_parsed(n, max, Seq::<char>::empty(), 0);
}

/// A flag is `true` or `false`, in these letters, or has its default.
pub proof fn law_flags_are_true_or_false(env: Environment, name: Seq<char>, default: bool)
    ensures
        setting(env, name) is None ==> flag_or(env, name, default) == Some(default),
        setting(env, name) == Some("true"@) ==> flag_or(env, name, default) == Some(true),
        setting(env, name) == Some("false"@) ==> flag_or(env, name, default) == Some(false),
        setting(env, name) matches Some(value) ==> (flag_or(env, name, default) is None <==> value
            != "true"@ && value != "false"@),
{
    reveal_strlit("true");
    reveal_strlit("false");
    assert("true"@.len() == 4 && "false"@.len() == 5);
}

/// What is not set has its default.
pub proof fn law_defaults(config: Config, env: Environment, now_secs: i64)
    requires
        config.is_of(env, now_secs),
    ensures
        config.mqtt is Some,
        config.influx is Some,
        ({
            let mqtt = config.mqtt->0;
            let influx = config.influx->0;
            &&& setting(env, "MQTT_HOST"@) is None ==> mqtt.host@ == "nanomq"@
            &&& setting(env, "MQTT_PORT"@) is None ==> mqtt.port == 1883
            &&& setting(env, "MQTT_USERNAME"@) is None ==> mqtt.username is None
            &&& setting(env, "MQTT_PASSWORD"@) is None ==> mqtt.password is None
            &&& setting(env, "MQTT_CLIENT_ID"@) is None ==> mqtt.client_id@ == "smarthome-ingest"@
                + "-"@ + text::signed_decimal(now_secs as int)
            &&& setting(env, "INFLUX_URL"@) is None ==> influx.url@ == "http://influxdb:8086"@
            &&& setting(env, "INFLUX_ORG"@) is None ==> influx.org@ == "smarthome"@
            &&& setting(env, "INFLUX_BUCKET"@) is None ==> influx.bucket@ == "sensors"@
            &&& setting(env, "BATCH_SIZE"@) is None ==> config.batch_size == 500
            &&& setting(env, "FLUSH_INTERVAL_MS"@) is None ==> config.flush_interval_ms == 1000
            &&& setting(env, "WAL_DIR"@) is None ==> config.wal_dir@ == "wal"@
            &&& setting(env, "WAL_SEGMENT_BYTES"@) is None ==> config.wal_segment_bytes == 64 * 1024
                * 1024
            &&& setting(env, "WAL_QUEUE_CAPACITY"@) is None ==> config.wal_queue_capacity == 16384
            &&& setting(env, "INPUT_QUEUE_CAPACITY"@) is None ==> config.input_queue_capacity
                == 16384
            &&& setting(env, "ENFORCE_TOPIC_DEVICE_MATCH"@) is None
                ==> config.enforce_topic_device_match
            &&& setting(env, "METRICS_BIND"@) is None ==> config.metrics_bind@ == "0.0.0.0:9090"@
            &&& setting(env, "CACHE_TTL_MS"@) is None ==> config.cache_ttl_ms == 5 * 60 * 1000
            &&& setting(env, "CACHE_BIND"@) is None ==> config.cache_bind@ == "0.0.0.0:8080"@
            &&& setting(env, "CACHE_BUFFER"@) is None ==> config.cache_buffer == 1024
        }),
{
}

/// What is set is taken, each from its own variable.
pub proof fn law_settings_are_taken(
    config: Config,
    env: Environment,
    now_secs: i64,
    value: Seq<char>,
    n: nat,
)
    requires
        config.is_of(env, now_secs),
    ensures
        ({
            let mqtt = config.mqtt->0;
            let influx = config.influx->0;
            &&& setting(env, "MQTT_HOST"@) == Some(value) ==> mqtt.host@ == value
            &&& setting(env, "MQTT_USERNAME"@) == Some(value) ==> (mqtt.username matches Some(s)
                && s@ == value)
            &&& setting(env, "MQTT_PASSWORD"@) == Some(value) ==> (mqtt.password matches Some(s)
                && s@ == value)
            &&& setting(env, "MQTT_CLIENT_ID"@) == Some(value) ==> mqtt.client_id@ == value + "-"@
                + text::signed_decimal(now_secs as int)
            &&& setting(env, "INFLUX_URL"@) == Some(value) ==> influx.url@ == value
            &&& setting(env, "INFLUX_ORG"@) == Some(value) ==> influx.org@ == value
            &&& setting(env, "INFLUX_BUCKET"@) == Some(value) ==> influx.bucket@ == value
            &&& setting(env, "INFLUX_TOKEN"@) == Some(value) ==> influx.token@ == value
            &&& setting(env, "WAL_DIR"@) == Some(value) ==> config.wal_dir@ == value
            &&& setting(env, "METRICS_BIND"@) == Some(value) ==> config.metrics_bind@ == value
            &&& setting(env, "CACHE_BIND"@) == Some(value) ==> config.cache_bind@ == value
        }),
        ({
            let written = Some(text::decimal(n));
            &&& setting(env, "MQTT_PORT"@) == written ==> config.mqtt->0.port == n
            &&& setting(env, "BATCH_SIZE"@) == written ==> config.batch_size == n
            &&& setting(env, "FLUSH_INTERVAL_MS"@) == written ==> config.flush_interval_ms == n
            &&& setting(env, "WAL_SEGMENT_BYTES"@) == written ==> config.wal_segment_bytes == n
            &&& setting(env, "WAL_QUEUE_CAPACITY"@) == written ==> config.wal_queue_capacity == n
            &&& setting(env, "INPUT_QUEUE_CAPACITY"@) == written ==> config.input_queue_capacity
                == n
            &&& setting(env, "CACHE_TTL_MS"@) == written ==> config.cache_ttl_ms == n
            &&& setting(env, "CACHE_BUFFER"@) == written ==> config.cache_buffer == n
        }),
        setting(env, "ENFORCE_TOPIC_DEVICE_MATCH"@) == Some("true"@)
            ==> config.enforce_topic_device_match,
        setting(env, "ENFORCE_TOPIC_DEVICE_MATCH"@) == Some("false"@)
            ==> !config.enforce_topic_device_match,
{
    law_flags_are_true_or_false(env, "ENFORCE_TOPIC_DEVICE_MATCH"@, true);
    text::law_numbers_up_to_the_greatest_are_parsed(n, u16::MAX as nat, value, 0);
    text::law_numbers_up_to_the_greatest_are_parsed(n, u64::MAX as nat, value, 0);
    text::law_numbers_up_to_the_greatest_are_parsed(n, usize::MAX as nat, value, 0);
}

/// Whether a variable is not set, or set to a number up to the greatest one.
pub open spec fn fits(env: Environment, name: Seq<char>, max: nat) -> bool {
    setting(env, name) matches Some(value) ==> text::parsed_unsigned(value, max) is Some
}

/// An environment is accepted if and only if it has a token, names no source but
/// `mqtt` and no sink but `influx`, and every number and the flag that it sets is
/// one.
pub proof fn law_sound_environments_are_accepted(env: Environment)
    ensures
        first_problem(env) is None <==> {
            &&& setting(env, "INFLUX_TOKEN"@) is Some
            &&& setting(env, "INPUT_SOURCE"@) matches Some(raw) ==> kind_name(raw) == "mqtt"@
            &&& setting(env, "OUTPUT_SINK"@) matches Some(raw) ==> kind_name(raw) == "influx"@
            &&& fits(env, "MQTT_PORT"@, 0xffff)
            &&& fits(env, "BATCH_SIZE"@, usize::MAX as nat)
            &&& fits(env, "FLUSH_INTERVAL_MS"@, u64::MAX as nat)
            &&& fits(env, "WAL_SEGMENT_BYTES"@, u64::MAX as nat)
            &&& fits(env, "WAL_QUEUE_CAPACITY"@, usize::MAX as nat)
            &&& fits(env, "INPUT_QUEUE_CAPACITY"@, usize::MAX as nat)
            &&& fits(env, "CACHE_TTL_MS"@, u64::MAX as nat)
            &&& fits(env, "CACHE_BUFFER"@, usize::MAX as nat)
            &&& setting(env, "ENFORCE_TOPIC_DEVICE_MATCH"@) matches Some(value) ==> value
                == "true"@ || value == "false"@
        },
{
}

/// The names of sources and sinks are taken whatever their case, and whatever
/// whitespace is around them.
pub proof fn law_case_of_kinds_does_not_matter(raw: Seq<char>)
    ensures
        kind_name(text::trimmed(raw)) == kind_name(raw),
        vstd::utf8::is_ascii_chars(text::trimmed(raw)) ==> kind_name(raw).len() == text::trimmed(
            raw,
        ).len() && forall|i: int|
            0 <= i < kind_name(raw).len() ==> #[trigger] kind_name(raw)[i] == text::ascii_lower(
                text::trimmed(raw)[i],
            ),
{
    text::law_trim_idempotent(raw, text::CharClass::Whitespace);
}

/// A variable sets a topic if and only if its name starts with `MQTT_TOPIC_`.
pub proof fn law_topic_variables_have_a_prefix(name: Seq<char>)
    ensures
        is_topic_name(name) <==> "MQTT_TOPIC_"@.is_prefix_of(name),
        is_topic_name("MQTT_TOPIC_"@ + name),
{
    reveal_strlit("MQTT_TOPIC_");
    assert("MQTT_TOPIC_"@.len() == 11);
    assert(("MQTT_TOPIC_"@ + name).take(11) =~= "MQTT_TOPIC_"@);
    if "MQTT_TOPIC_"@.is_prefix_of(name) {
        assert(name.take(11) =~= "MQTT_TOPIC_"@);
    }
}

/// A topic is that of the dead-letter queue if and only if the name of its
/// variable ends with `DLQ`.
pub proof fn law_dead_letter_variables_have_a_suffix(name: Seq<char>)
    ensures
        names_dlq(name) <==> "DLQ"@.is_suffix_of(name),
        names_dlq(name + "DLQ"@),
{
    reveal_strlit("DLQ");
    assert((name + "DLQ"@).skip(name.len() as int) =~= "DLQ"@);
    if "DLQ"@.is_suffix_of(name) {
        assert(name.skip(name.len() - 3) =~= "DLQ"@);
    }
}

/// Every variable for a topic sets one, in place of an earlier one of the same
/// name, and no other variable does.
pub proof fn law_topic_variables_set_topics(
    env: Environment,
    var: (Seq<char>, Seq<char>),
    other: (Seq<char>, Seq<char>),
)
    ensures
        is_topic_name(var.0) ==> topics(env.push(var)).contains(var),
        !is_topic_name(var.0) ==> topics(env.push(var)) == topics(env),
        other.0 != var.0 ==> (topics(env.push(var)).contains(other) <==> topics(env).contains(
            other,
        )),
        other.0 == var.0 && other.1 != var.1 && is_topic_name(var.0) ==> !topics(
            env.push(var),
        ).contains(other),
{
    assert(env.push(var).drop_last() =~= env);
    let before = topics(env);
    if is_topic_name(var.0) {
        let after = topics(env.push(var));
        if has_name(before, var.0) {
            let k = choose|k: int| 0 <= k < before.len() && (#[trigger] before[k]).0 == var.0;
            assert(after[k] == var);
            if other.0 != var.0 && before.contains(other) {
                let i = choose|i: int| 0 <= i < before.len() && before[i] == other;
                assert(after[i] == other);
            }
            if other.0 != var.0 && after.contains(other) {
                let i = choose|i: int| 0 <= i < after.len() && after[i] == other;
                assert(before[i] == other);
            }
        } else {
            assert(after[before.len() as int] == var);
            if before.contains(other) {
                let i = choose|i: int| 0 <= i < before.len() && before[i] == other;
                assert(after[i] == other);
            }
            if other.0 != var.0 && after.contains(other) {
                let i = choose|i: int| 0 <= i < after.len() && after[i] == other;
                assert(before[i] == other);
            }
            if other.0 == var.0 && other.1 != var.1 && after.contains(other) {
                let i = choose|i: int| 0 <= i < after.len() && after[i] == other;
                assert(before[i].0 == var.0);
            }
        }
    }
}

/// Where a variable sets a topic, these are the topics. Otherwise there are two:
/// one of the sensors, and the dead-letter queue, each as its own setting has it.
pub proof fn law_topics_or_the_two_defaults(env: Environment, i: int)
    ensures
        0 <= i < env.len() && is_topic_name(env[i].0) ==> topics_or_default(env) == topics(env)
            && topics(env).len() > 0,
        (forall|k: int| 0 <= k < env.len() ==> !is_topic_name((#[trigger] env[k]).0)) ==> {
            &&& topics_or_default(env).len() == 2
            &&& topics_or_default(env)[0].0 == "MQTT_TOPIC_SENSOR"@
            &&& topics_or_default(env)[0].1 == (match setting(env, "MQTT_TOPIC"@) {
                Some(topic) => topic,
                None => "smarthome/+/bme680"@,
            })
            &&& topics_or_default(env)[1].0 == "MQTT_TOPIC_DLQ"@
            &&& topics_or_default(env)[1].1 == (match setting(env, "DLQ_TOPIC"@) {
                Some(topic) => topic,
                None => "smarthome/_dlq/ingest"@,
            })
        },
{
    if 0 <= i < env.len() && is_topic_name(env[i].0) {
        lemma_some_topic(env, i);
    }
    if forall|k: int| 0 <= k < env.len() ==> !is_topic_name((#[trigger] env[k]).0) {
        lemma_no_topic(env);
    }
}

proof fn lemma_some_topic(env: Environment, i: int)
    requires
        0 <= i < env.len(),
        is_topic_name(env[i].0),
    ensures
        topics(env).len() > 0,
    decreases env.len(),
{
    if i < env.len() - 1 {
        assert(env.drop_last()[i] == env[i]);
        lemma_some_topic(env.drop_last(), i);
    }
}

proof fn lemma_no_topic(env: Environment)
    requires
        forall|k: int| 0 <= k < env.len() ==> !is_topic_name((#[trigger] env[k]).0),
    ensures
        topics(env).len() == 0,
    decreases env.len(),
{
    if env.len() > 0 {
        let front = env.drop_last();
        assert forall|k: int| 0 <= k < front.len() implies !is_topic_name(
            (#[trigger] front[k]).0,
        ) by {
            assert(front[k] == env[k]);
        }
        lemma_no_topic(front);
        assert(env[env.len() - 1] == env.last());
    }
}

/// The topics are subscribed to in their order, but for the dead-letter queue.
pub proof fn law_topics_are_subscribed_in_order(
    topics: Environment,
    var: (Seq<char>, Seq<char>),
)
    ensures
        names_dlq(var.0) ==> subscribed(topics.push(var)) == subscribed(topics),
        !names_dlq(var.0) ==> subscribed(topics.push(var)) == subscribed(topics).push(var.1),
{
    assert(topics.push(var).drop_last() =~= topics);
}

/// A configuration is had from an environment if and only if it is accepted, and
/// otherwise the error says what is wrong first.
pub proof fn law_only_sound_environments_are_taken(
    vars: Vec<(String, String)>,
    now_secs: i64,
    r: Result<Config, ConfigError>,
)
    requires
        call_ensures(Config::from_env, (&vars, now_secs), r),
    ensures
        r is Ok <==> first_problem(env_view(vars@)) is None,
        r matches Ok(config) ==> config.is_of(env_view(vars@), now_secs),
        setting(env_view(vars@), "INFLUX_TOKEN"@) is None ==> r is Err,
        r matches Err(e) ==> Some(e.message@) == first_problem(env_view(vars@)),
{
}

/// Only `mqtt` is a source and only `influx` a sink, in any case.
pub proof fn law_known_kinds(
    raw: &str,
    source: Result<InputSourceKind, ConfigError>,
    sink: Result<OutputSinkKind, ConfigError>,
)
    requires
        call_ensures(InputSourceKind::parse, (raw,), source),
        call_ensures(OutputSinkKind::parse, (raw,), sink),
        vstd::utf8::is_ascii_chars(text::trimmed(raw@)),
    ensures
        source is Ok <==> text::ascii_lowered(text::trimmed(raw@)) == "mqtt"@,
        sink is Ok <==> text::ascii_lowered(text::trimmed(raw@)) == "influx"@,
        !(source is Ok && sink is Ok),
{
    reveal_strlit("mqtt");
    reveal_strlit("influx");
    assert("mqtt"@.len() == 4 && "influx"@.len() == 6);
}

/// A topic is found under the end of the name of its variable, and the topics that
/// are subscribed to are all but those of the dead-letter queue.
pub proof fn law_topics_are_found_by_name(
    config: Config,
    name: &str,
    found: Option<&str>,
    all: Vec<String>,
    i: int,
)
    requires
        names_differ(env_view(config.mqtt_topics@)),
        call_ensures(Config::topic_route, (&config, name), found),
        call_ensures(Config::subscriptions, (&config,), all),
        0 <= i < config.mqtt_topics@.len(),
        config.mqtt_topics@[i].0@ == "MQTT_TOPIC_"@ + name@,
    ensures
        found matches Some(s) && s@ == config.mqtt_topics@[i].1@,
        !("DLQ"@.is_suffix_of("MQTT_TOPIC_"@ + name@)) ==> text::views(all@).contains(
            config.mqtt_topics@[i].1@,
        ),
{
    let topics = env_view(config.mqtt_topics@);
    assert(topics[i].0 == "MQTT_TOPIC_"@ + name@);
    lemma_lookup(topics, "MQTT_TOPIC_"@ + name@, 0, i);
    law_dead_letter_variables_have_a_suffix("MQTT_TOPIC_"@ + name@);
    law_only_dead_letters_are_not_subscribed(topics);
    if !names_dlq("MQTT_TOPIC_"@ + name@) {
        assert(!names_dlq(topics[i].0) && topics[i].1 == config.mqtt_topics@[i].1@);
        assert(subscribed(topics).contains(topics[i].1));
    }
}

/// The text of the settings shows each of them that is no secret: who reads the
/// same text of two has the same settings.
pub proof fn law_text_of_settings_shows_them(
    host: Seq<char>,
    port: u16,
    other_port: u16,
    client_id: Seq<char>,
    url: Seq<char>,
    org: Seq<char>,
    bucket: Seq<char>,
    other: Seq<char>,
)
    ensures
        mqtt_text(host, port, client_id) == mqtt_text(host, other_port, client_id) ==> port
            == other_port,
        mqtt_text(host, port, client_id) == mqtt_text(other, port, client_id) ==> text::quoted(host)
            == text::quoted(other),
        mqtt_text(host, port, client_id) == mqtt_text(host, port, other) ==> text::quoted(client_id)
            == text::quoted(other),
        influx_text(url, org, bucket) == influx_text(other, org, bucket) ==> text::quoted(url)
            == text::quoted(other),
        influx_text(url, org, bucket) == influx_text(url, other, bucket) ==> text::quoted(org)
            == text::quoted(other),
        influx_text(url, org, bucket) == influx_text(url, org, other) ==> text::quoted(bucket)
            == text::quoted(other),
{
    lemma_mqtt_text(host, port, client_id);
    lemma_mqtt_text(host, other_port, client_id);
    lemma_mqtt_text(other, port, client_id);
    lemma_mqtt_text(host, port, other);
    lemma_influx_text(url, org, bucket);
    lemma_influx_text(other, org, bucket);
    lemma_influx_text(url, other, bucket);
    lemma_influx_text(url, org, other);
    let a = "MqttSourceConfig { host: "@;
    let b = ", port: "@ + text::decimal(port as nat) + ", client_id: "@ + text::quoted(client_id)
        + " }"@;
    if mqtt_text(host, port, client_id) == mqtt_text(other, port, client_id) {
        text::lemma_between(a, text::quoted(host), text::quoted(other), b);
    }
    let c = a + text::quoted(host) + ", port: "@;
    let d = ", client_id: "@ + text::quoted(client_id) + " }"@;
    if mqtt_text(host, port, client_id) == mqtt_text(host, other_port, client_id) {
        text::lemma_between(c, text::decimal(port as nat), text::decimal(other_port as nat), d);
        text::law_numbers_are_written_differently(port as nat, other_port as nat);
    }
    let e = c + text::decimal(port as nat) + ", client_id: "@;
    if mqtt_text(host, port, client_id) == mqtt_text(host, port, other) {
        text::lemma_between(e, text::quoted(client_id), text::quoted(other), " }"@);
    }
    let f = "InfluxSinkConfig { url: "@;
    let end = ", token: \"[REDACTED]\" }"@;
    let g = ", org: "@ + text::quoted(org) + ", bucket: "@ + text::quoted(bucket) + end;
    if influx_text(url, org, bucket) == influx_text(other, org, bucket) {
        text::lemma_between(f, text::quoted(url), text::quoted(other), g);
    }
    let h = f + text::quoted(url) + ", org: "@;
    let i = ", bucket: "@ + text::quoted(bucket) + end;
    if influx_text(url, org, bucket) == influx_text(url, other, bucket) {
        text::lemma_between(h, text::quoted(org), text::quoted(other), i);
    }
    let j = h + text::quoted(org) + ", bucket: "@;
    if influx_text(url, org, bucket) == influx_text(url, org, other) {
        text::lemma_between(j, text::quoted(bucket), text::quoted(other), end);
    }
}

proof fn lemma_mqtt_text(host: Seq<char>, port: u16, client_id: Seq<char>)
    ensures
        mqtt_text(host, port, client_id) == "MqttSourceConfig { host: "@ + text::quoted(host) + (
        ", port: "@ + text::decimal(port as nat) + ", client_id: "@ + text::quoted(client_id)
            + " }"@),
        mqtt_text(host, port, client_id) == ("MqttSourceConfig { host: "@ + text::quoted(host)
            + ", port: "@) + text::decimal(port as nat) + (", client_id: "@ + text::quoted(
            client_id,
        ) + " }"@),
        mqtt_text(host, port, client_id) == ("MqttSourceConfig { host: "@ + text::quoted(host)
            + ", port: "@ + text::decimal(port as nat) + ", client_id: "@) + text::quoted(client_id)
            + " }"@,
{
    assert(mqtt_text(host, port, client_id) =~= "MqttSourceConfig { host: "@ + text::quoted(host)
        + (", port: "@ + text::decimal(port as nat) + ", client_id: "@ + text::quoted(client_id)
        + " }"@));
    assert(mqtt_text(host, port, client_id) =~= ("MqttSourceConfig { host: "@ + text::quoted(host)
        + ", port: "@) + text::decimal(port as nat) + (", client_id: "@ + text::quoted(client_id)
        + " }"@));
}

proof fn lemma_influx_text(url: Seq<char>, org: Seq<char>, bucket: Seq<char>)
    ensures
        ({
            let start = "InfluxSinkConfig { url: "@;
            let end = ", token: \"[REDACTED]\" }"@;
            &&& influx_text(url, org, bucket) == start + text::quoted(url) + (", org: "@
                + text::quoted(org) + ", bucket: "@ + text::quoted(bucket) + end)
            &&& influx_text(url, org, bucket) == (start + text::quoted(url) + ", org: "@)
                + text::quoted(org) + (", bucket: "@ + text::quoted(bucket) + end)
            &&& influx_text(url, org, bucket) == (start + text::quoted(url) + ", org: "@
                + text::quoted(org) + ", bucket: "@) + text::quoted(bucket) + end
        }),
{
    let start = "InfluxSinkConfig { url: "@;
    let end = ", token: \"[REDACTED]\" }"@;
    assert(influx_text(url, org, bucket) =~= start + text::quoted(url) + (", org: "@ + text::quoted(
        org,
    ) + ", bucket: "@ + text::quoted(bucket) + end));
    assert(influx_text(url, org, bucket) =~= (start + text::quoted(url) + ", org: "@)
        + text::quoted(org) + (", bucket: "@ + text::quoted(bucket) + end));
}

/// The error on a source or a sink that is not known names it.
pub proof fn law_unknown_kinds_are_named(a: Seq<char>, b: Seq<char>)
    ensures
        unsupported_input(a) == unsupported_input(b) ==> a == b,
        unsupported_output(a) == unsupported_output(b) ==> a == b,
{
    if unsupported_input(a) == unsupported_input(b) {
        text::lemma_between(
            "unsupported INPUT_SOURCE '"@,
            a,
            b,
            "': only 'mqtt' is currently implemented"@,
        );
    }
    if unsupported_output(a) == unsupported_output(b) {
        text::lemma_between(
            "unsupported OUTPUT_SINK '"@,
            a,
            b,
            "': only 'influx' is currently implemented"@,
        );
    }
}

} // verus!
