# smarthome-ingest

A service that takes in telemetry and device states of a smart home from an MQTT
broker, checks them, keeps the last state of each sensor at hand, and writes them
to InfluxDB v2 by way of a write-ahead log. What cannot be taken in is published,
with the reason, on a dead-letter topic of the broker.

## Layout

- `src/` is the library, verified with Verus: the write-ahead log (records,
  segments, recovery, writer, reader, forwarder), topics and routes, the stages
  of the pipeline, the cache, line protocol, and the configuration. It does no
  I/O of its own: files, sockets, clocks and threads are the caller's, who hands
  it values and carries out what it decides.
- `app/` is the program around the library: files, threads, MQTT, HTTP, metrics,
  and the floating-point formulas for derived readings.
- `tests/` runs the library on concrete values.

Calls into other crates stand behind small trusted functions in `src/`, each with
a comment that says what is taken on trust.

## Configuration

| Environment variable | Description | Default |
| --- | --- | --- |
| `INPUT_SOURCE` | The input: `mqtt`. | `mqtt` |
| `OUTPUT_SINK` | The output: `influx`. | `influx` |
| `MQTT_HOST`, `MQTT_PORT` | The broker. | `nanomq`, `1883` |
| `MQTT_USERNAME`, `MQTT_PASSWORD` | The login at the broker. | none |
| `MQTT_CLIENT_ID` | The name at the broker; the time is appended. | `smarthome-ingest` |
| `MQTT_TOPIC_SENSOR`, `MQTT_TOPIC_STATUS` | Topic patterns of the messages. | none |
| `MQTT_TOPIC_DLQ` | The dead-letter topic. | none |
| `MQTT_TOPIC` | The sensor topic, where no `MQTT_TOPIC_<NAME>` is set. | `smarthome/+/bme680` |
| `DLQ_TOPIC` | The dead-letter topic, where no `MQTT_TOPIC_<NAME>` is set. | `smarthome/_dlq/ingest` |
| `INFLUX_URL`, `INFLUX_ORG`, `INFLUX_BUCKET` | The database. | `http://influxdb:8086`, `smarthome`, `sensors` |
| `INFLUX_TOKEN` | The token with write permission. | required |
| `BATCH_SIZE`, `FLUSH_INTERVAL_MS` | When a batch is written. | `500`, `1000` |
| `WAL_DIR` | The directory of the log. | `wal` |
| `WAL_SEGMENT_BYTES` | The length at which a segment ends. | 64 MiB |
| `WAL_QUEUE_CAPACITY`, `INPUT_QUEUE_CAPACITY` | The lengths of the queues. | `16384` |
| `ENFORCE_TOPIC_DEVICE_MATCH` | Whether a topic and its payload must name the same device. | `true` |
| `METRICS_BIND` | Where Prometheus metrics are served. | `0.0.0.0:9090` |
| `CACHE_TTL_MS`, `CACHE_BIND`, `CACHE_BUFFER` | The cache and its HTTP interface. | `300000`, `0.0.0.0:8080`, `1024` |
