# speed-test

A terminal-based network diagnostics tool: internet speed tests, a continuous
latency monitor, DSL modem diagnostics, a test history and a keyboard-driven
interface.

The decisions and computations of the tool are a verified library; what talks to
the network, the terminal and the disk is ordinary Rust around it.

* `src/` – the library. Times are whole nanoseconds, levels ten-thousandths of a
  dB. Average times and data rates are exact quotients; the smoothed rate of the
  moment and the sums of a session's rates are kept to a billionth of a bit per
  second. Decimals are those of the nearest binary number of double precision.
  * `app`, `control`, `tick`, `session` – the application state, what keys and
    steps of the main loop do to it, and what holds in every session.
  * `net`, `engine`, `lookup` – measurements, the order of a full test, the
    connection information.
  * `monitor`, `modem`, `dsl` – rolling windows, incidents, statistics.
  * `soap`, `poller`, `route` – requests to a modem, replies, discovery.
  * `keys`, `input` – shortcuts, layouts, physical keys.
  * `footer`, `panels`, `monitor_view`, `modem_view`, `records_view`, `style` –
    what the screen shows.
  * `history`, `measure`, `text` – records, numbers, text.
* `app/` – the program: tasks, HTTP requests, the history file, drawing.
* `tests/` – scenarios.
