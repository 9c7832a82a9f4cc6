use smarthome_ingest::config::{Config, InputSourceKind, OutputSinkKind};
use smarthome_ingest::infrastructure::router::{build_router, RouteLoadError};
use smarthome_ingest::model::messages::MessageType;
use smarthome_ingest::model::topic::TopicPatternError;

fn vars(pairs: &[(&str, &str)]) -> Vec<(String, String)> {
    pairs
        .iter()
        .map(|(name, value)| (name.to_string(), value.to_string()))
        .collect()
}

/// A configuration with a topic, a log and a cache.
fn least() -> Vec<(String, String)> {
    vars(&[
        ("INPUT_SOURCE", "mqtt"),
        ("OUTPUT_SINK", "influx"),
        ("MQTT_TOPIC_SENSOR", "home/sensor/+"),
        ("INFLUX_TOKEN", "secret"),
        ("WAL_DIR", "/var/lib/wal"),
        ("CACHE_TTL_MS", "60000"),
        ("CACHE_BIND", "0.0.0.0:8080"),
        ("CACHE_BUFFER", "64"),
    ])
}

fn with(name: &str, value: &str) -> Vec<(String, String)> {
    let mut all = without(name);
    all.push((name.to_string(), value.to_string()));
    all
}

fn without(name: &str) -> Vec<(String, String)> {
    least().into_iter().filter(|(n, _)| n != name).collect()
}

fn problem(env: &Vec<(String, String)>) -> String {
    match Config::from_env(env, 0) {
        Ok(_) => panic!("a problem was expected"),
        Err(e) => e.message,
    }
}

fn config(env: &Vec<(String, String)>) -> Config {
    match Config::from_env(env, 1_700_000_000) {
        Ok(cfg) => cfg,
        Err(e) => panic!("{}", e.message),
    }
}

#[test]
fn input_source_kind_parse_accepts_mqtt_case_insensitive() {
    assert_eq!(InputSourceKind::parse("mqtt").unwrap(), InputSourceKind::Mqtt);
    assert_eq!(InputSourceKind::parse("MQTT").unwrap(), InputSourceKind::Mqtt);
    assert_eq!(InputSourceKind::parse(" Mqtt ").unwrap(), InputSourceKind::Mqtt);
}

#[test]
fn input_source_kind_parse_rejects_unknown_value() {
    let err = InputSourceKind::parse("kafka").unwrap_err();
    assert!(err.message.contains("unsupported INPUT_SOURCE 'kafka'"));
}

#[test]
fn input_source_kind_parse_rejects_empty_value() {
    assert!(InputSourceKind::parse("").is_err());
}

#[test]
fn output_source_kind_parse_accepts_influx_case_insensitive() {
    assert_eq!(OutputSinkKind::parse("influx").unwrap(), OutputSinkKind::Influx);
    assert_eq!(OutputSinkKind::parse("INFLUX").unwrap(), OutputSinkKind::Influx);
    assert_eq!(OutputSinkKind::parse(" Influx ").unwrap(), OutputSinkKind::Influx);
}

#[test]
fn output_source_kind_parse_rejects_unknown_value() {
    let err = OutputSinkKind::parse("kafka").unwrap_err();
    assert!(err.message.contains("unsupported OUTPUT_SINK 'kafka'"));
}

#[test]
fn output_source_kind_parse_rejects_empty_value() {
    assert!(OutputSinkKind::parse("").is_err());
}

#[test]
fn unknown_kinds_are_named_in_lower_case() {
    assert_eq!(
        InputSourceKind::parse("  ÄPFEL ").unwrap_err().message,
        "unsupported INPUT_SOURCE 'äpfel': only 'mqtt' is currently implemented"
    );
    assert_eq!(
        OutputSinkKind::parse("KAFKA").unwrap_err().message,
        "unsupported OUTPUT_SINK 'kafka': only 'influx' is currently implemented"
    );
}

#[test]
fn kind_names_are_taken_as_they_are() {
    assert!(InputSourceKind::from_name("mqtt").is_ok());
    assert!(InputSourceKind::from_name("MQTT").is_err());
    assert!(OutputSinkKind::from_name("influx").is_ok());
    assert!(OutputSinkKind::from_name(" influx").is_err());
}

#[test]
fn defaults_fill_in_what_is_not_set() {
    let cfg = config(&least());
    assert_eq!(cfg.input_source, InputSourceKind::Mqtt);
    assert_eq!(cfg.output_sink, OutputSinkKind::Influx);
    let mqtt = cfg.mqtt.as_ref().unwrap();
    assert_eq!(mqtt.host, "nanomq");
    assert_eq!(mqtt.port, 1883);
    assert_eq!(mqtt.username, None);
    assert_eq!(mqtt.password, None);
    assert_eq!(mqtt.client_id, "smarthome-ingest-1700000000");
    let influx = cfg.influx.as_ref().unwrap();
    assert_eq!(influx.url, "http://influxdb:8086");
    assert_eq!(influx.org, "smarthome");
    assert_eq!(influx.bucket, "sensors");
    assert_eq!(influx.token, "secret");
    assert_eq!(cfg.batch_size, 500);
    assert_eq!(cfg.flush_interval_ms, 1000);
    assert_eq!(cfg.wal_dir, "/var/lib/wal");
    assert_eq!(cfg.wal_segment_bytes, 64 * 1024 * 1024);
    assert_eq!(cfg.wal_queue_capacity, 16_384);
    assert_eq!(cfg.input_queue_capacity, 16_384);
    assert!(cfg.enforce_topic_device_match);
    assert_eq!(cfg.metrics_bind, "0.0.0.0:9090");
    assert_eq!(cfg.cache_ttl_ms, 60_000);
    assert_eq!(cfg.cache_bind, "0.0.0.0:8080");
    assert_eq!(cfg.cache_buffer, 64);
    assert_eq!(cfg.mqtt_topics, vars(&[("MQTT_TOPIC_SENSOR", "home/sensor/+")]));
}

#[test]
fn settings_are_trimmed_and_override_defaults() {
    let mut env = least();
    env.extend(vars(&[
        ("MQTT_HOST", "  broker "),
        ("MQTT_PORT", "8883"),
        ("MQTT_USERNAME", "me"),
        ("MQTT_PASSWORD", "   "),
        ("MQTT_CLIENT_ID", "probe"),
        ("INFLUX_URL", "http://db:1/"),
        ("BATCH_SIZE", "7"),
        ("ENFORCE_TOPIC_DEVICE_MATCH", "false"),
        ("METRICS_BIND", "127.0.0.1:1"),
    ]));
    let cfg = config(&env);
    let mqtt = cfg.mqtt.as_ref().unwrap();
    assert_eq!(mqtt.host, "broker");
    assert_eq!(mqtt.port, 8883);
    assert_eq!(mqtt.username, Some("me".to_string()));
    assert_eq!(mqtt.password, None, "a blank variable is not set");
    assert_eq!(mqtt.client_id, "probe-1700000000");
    assert_eq!(cfg.influx.as_ref().unwrap().url, "http://db:1/");
    assert_eq!(cfg.batch_size, 7);
    assert!(!cfg.enforce_topic_device_match);
    assert_eq!(cfg.metrics_bind, "127.0.0.1:1");
}

#[test]
fn missing_settings_are_reported() {
    let message = "INFLUX_TOKEN is required when OUTPUT_SINK=influx";
    assert_eq!(problem(&without("INFLUX_TOKEN")), message);
    assert_eq!(problem(&with("INFLUX_TOKEN", "  ")), message);
    assert_eq!(problem(&Vec::new()), message);
}

#[test]
fn the_token_alone_is_enough() {
    let cfg = config(&vars(&[("INFLUX_TOKEN", "t")]));
    assert_eq!(cfg.input_source, InputSourceKind::Mqtt);
    assert_eq!(cfg.output_sink, OutputSinkKind::Influx);
    let mqtt = cfg.mqtt.as_ref().unwrap();
    assert_eq!(mqtt.host, "nanomq");
    assert_eq!(mqtt.port, 1883);
    let influx = cfg.influx.as_ref().unwrap();
    assert_eq!(influx.url, "http://influxdb:8086");
    assert_eq!(influx.org, "smarthome");
    assert_eq!(influx.bucket, "sensors");
    assert_eq!(influx.token, "t");
    assert_eq!(cfg.batch_size, 500);
    assert_eq!(cfg.flush_interval_ms, 1000);
    assert!(cfg.enforce_topic_device_match);
    assert_eq!(cfg.metrics_bind, "0.0.0.0:9090");
    assert_eq!(cfg.wal_dir, "wal");
    assert_eq!(cfg.cache_ttl_ms, 300_000);
    assert_eq!(cfg.cache_bind, "0.0.0.0:8080");
    assert_eq!(cfg.cache_buffer, 1024);
    assert_eq!(cfg.topic_route("SENSOR"), Some("smarthome/+/bme680"));
    assert_eq!(cfg.topic_route("DLQ"), Some("smarthome/_dlq/ingest"));
    assert_eq!(cfg.subscriptions(), vec!["smarthome/+/bme680"]);
    let router = match build_router(&cfg) {
        Ok(router) => router,
        Err(e) => panic!("{}", e.message()),
    };
    assert_eq!(
        router.message_type_for_topic("smarthome/dev-1/bme680"),
        Some(MessageType::Sensor)
    );
}

#[test]
fn single_topics_are_used_where_no_named_one_is_set() {
    let mut env = vars(&[
        ("INFLUX_TOKEN", "t"),
        ("MQTT_TOPIC", " home/+/air "),
        ("DLQ_TOPIC", "home/_dlq"),
    ]);
    let cfg = config(&env);
    assert_eq!(cfg.topic_route("SENSOR"), Some("home/+/air"));
    assert_eq!(cfg.topic_route("DLQ"), Some("home/_dlq"));
    env.extend(vars(&[("MQTT_TOPIC_STATUS", "home/+/status")]));
    let cfg = config(&env);
    assert_eq!(cfg.mqtt_topics, vars(&[("MQTT_TOPIC_STATUS", "home/+/status")]));
}

#[test]
fn malformed_settings_are_reported() {
    assert_eq!(problem(&with("MQTT_PORT", "65536")), "MQTT_PORT must be a u16");
    assert_eq!(problem(&with("BATCH_SIZE", "-1")), "BATCH_SIZE must be a valid usize");
    assert_eq!(
        problem(&with("FLUSH_INTERVAL_MS", "1s")),
        "FLUSH_INTERVAL_MS must be a valid u64"
    );
    assert_eq!(
        problem(&with("WAL_SEGMENT_BYTES", "18446744073709551616")),
        "WAL_SEGMENT_BYTES must be a valid u64"
    );
    assert_eq!(
        problem(&with("WAL_QUEUE_CAPACITY", "x")),
        "WAL_QUEUE_CAPACITY must be a valid usize"
    );
    assert_eq!(
        problem(&with("INPUT_QUEUE_CAPACITY", "x")),
        "INPUT_QUEUE_CAPACITY must be a valid usize"
    );
    assert_eq!(
        problem(&with("ENFORCE_TOPIC_DEVICE_MATCH", "True")),
        "ENFORCE_TOPIC_DEVICE_MATCH must be a valid bool"
    );
    assert_eq!(problem(&with("CACHE_TTL_MS", "1e3")), "CACHE_TTL_MS must be a valid u64");
    assert_eq!(problem(&with("CACHE_BUFFER", "4 0")), "CACHE_BUFFER must be a valid usize");
    assert_eq!(
        problem(&with("INPUT_SOURCE", "kafka")),
        "unsupported INPUT_SOURCE 'kafka': only 'mqtt' is currently implemented"
    );
    assert_eq!(
        problem(&with("OUTPUT_SINK", "kafka")),
        "unsupported OUTPUT_SINK 'kafka': only 'influx' is currently implemented"
    );
}

#[test]
fn topics_are_collected_once_under_their_names() {
    let mut env = least();
    env.extend(vars(&[
        ("MQTT_TOPICS", "no"),
        ("MQTT_TOPIC_DLQ", "home/_dlq"),
        ("MQTT_TOPIC_SENSOR", "home/+/bme680"),
        ("MQTT_TOPIC_STATUS", "home/+/status"),
    ]));
    let cfg = config(&env);
    assert_eq!(
        cfg.mqtt_topics,
        vars(&[
            ("MQTT_TOPIC_SENSOR", "home/+/bme680"),
            ("MQTT_TOPIC_DLQ", "home/_dlq"),
            ("MQTT_TOPIC_STATUS", "home/+/status"),
        ])
    );
    assert_eq!(cfg.topic_route("DLQ"), Some("home/_dlq"));
    assert_eq!(cfg.topic_route("OTHER"), None);
    assert_eq!(cfg.subscriptions(), vec!["home/+/bme680", "home/+/status"]);
}

#[test]
fn build_router_routes_sensor_and_status_topics() {
    let mut env = least();
    env.extend(vars(&[
        ("MQTT_TOPIC_DLQ", "home/_dlq"),
        ("MQTT_TOPIC_OTHER", "home/other"),
        ("MQTT_TOPIC_STATUS", "home/+/status"),
    ]));
    let router = match build_router(&config(&env)) {
        Ok(router) => router,
        Err(e) => panic!("{}", e.message()),
    };
    assert_eq!(
        router.message_type_for_topic("home/sensor/dev-1"),
        Some(MessageType::Sensor)
    );
    assert_eq!(
        router.message_type_for_topic("home/dev-1/status"),
        Some(MessageType::Status)
    );
    assert_eq!(router.message_type_for_topic("home/_dlq"), None);
    assert_eq!(router.message_type_for_topic("home/other"), None);
}

#[test]
fn build_router_reports_a_pattern_at_fault() {
    let cfg = config(&with("MQTT_TOPIC_SENSOR", "home/#/sensor"));
    match build_router(&cfg) {
        Err(RouteLoadError::Pattern(TopicPatternError::MultiNotLast(raw))) => {
            assert_eq!(raw, "home/#/sensor")
        }
        Err(other) => panic!("{}", other.message()),
        Ok(_) => panic!("the pattern is at fault"),
    }
}

#[test]
fn settings_are_shown_without_secrets() {
    let mut env = least();
    env.extend(vars(&[
        ("MQTT_HOST", "bro\"ker"),
        ("MQTT_USERNAME", "somebody"),
        ("MQTT_PASSWORD", "hidden"),
    ]));
    let cfg = config(&env);
    assert_eq!(
        cfg.mqtt.as_ref().unwrap().debug_text(),
        "MqttSourceConfig { host: \"bro\\\"ker\", port: 1883, \
         client_id: \"smarthome-ingest-1700000000\" }"
    );
    assert_eq!(
        cfg.influx.as_ref().unwrap().debug_text(),
        "InfluxSinkConfig { url: \"http://influxdb:8086\", org: \"smarthome\", \
         bucket: \"sensors\", token: \"[REDACTED]\" }"
    );
}
