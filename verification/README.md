# ruuvi_exporter

A RuuviTag exporter: it listens to RuuviTag advertisements through BlueZ and exports the
readings to Prometheus, to the log and, optionally, to a modio logger.

- `src/` is the library, verified with Verus:
  - `addr`: Bluetooth addresses, their colon-hexadecimal text and its parsing;
  - `reading`: decoding manufacturer data into a `SensorReading` (the payload decoding
    itself is done by the `ruuvi-sensor-protocol` crate);
  - `data`: the decoder that walks a reading's values with their names, SenML units and
    decimal texts, and the log and modio records built from it;
  - `prom`: the gauge updates for a reading;
  - `bluez`: which managed objects are adapters or devices, what a new object calls for,
    how a device is shown, and what a property change carries;
  - `devices`: the table of tracked devices, keyed by object path;
  - `serve`: routing of HTTP requests and the answers;
  - `text`: hexadecimal and decimal text.
- `tests/` runs the library on concrete values.
- `app/` is the program: D-Bus, HTTP, tasks and channels, and the floating-point gauge
  values, around the library.
