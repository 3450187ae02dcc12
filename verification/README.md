# mqtt_test

The verified core of a small desktop MQTT test client.

- `src/` is the library, checked by Verus:
  - `text` renders numbers in decimal and hex and parses the port field;
  - `clock` makes the clock reading behind each client identifier;
  - `log` holds the log entries and how they are shown;
  - `manager` keeps the log and the connection state, and plans connections;
  - `broker` carries the `rumqttc` options, client and connection, and
    models what they hold;
  - `session` is one connection's event loop: commands, events, log entries;
  - `form` is the state behind the window and what each button asks for.
- `app/` is the window (eframe/egui), the channels and the connection thread.
- `tests/` runs the library against concrete values.
