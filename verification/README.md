# opentelemetry-sdk (verified core)

A Verus library holding the logic of an OpenTelemetry metrics and logs SDK,
with its contracts proved:

- `severity`: log severities, their short names and numbers.
- `attributes`: attributes and the attribute set a list of them denotes.
- `value_map`: per-attribute-set aggregation with a cardinality limit and an
  overflow series; the laws of measuring and collecting.
- `sum`, `gauge`: the sum and last-value aggregators.
- `collector`: attribute filtering, delta and cumulative maps, and the
  collector that fills sum aggregations.
- `data`, `exporter`: collected data, the metric batch handed to exporters,
  and the exporter interface.
- `stress`: one step of the gauge stress test.
- `number`, `time`: the numeric types measured in, and wall-clock stamps.

`app/` holds the stress-test program (threads, per-thread random number
generators, timing) and the log record interface, whose values include
floating-point numbers.

The value map keeps its series in a `Vec` searched linearly, not in a hash
map keyed by attribute lists. A series is identified by the attribute set
its list denotes (order and repeated keys do not matter), an equality that
hashing the list does not give; and with string keys a hash map's
contents could not be reasoned about, so the map's laws (read back after a
write, the cardinality limit, the overflow series) could not be proved.
