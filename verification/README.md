# traccar_lib

A verified core for a command line client of a [Traccar](https://www.traccar.org/)
GPS tracking server, written in Verus.

- `src/` is the library. It holds the records the server sends (devices,
  positions, geofences), the reports that say where a device is (in a
  geofence, relative to the nearest landmark, or at a bare coordinate), the
  live-tail state machine that decides when a newer position is worth
  printing, the report store that detects geofences entered and left, and
  the decisions of the interactive modes (login questions, refresh delay,
  notification texts). Every function there is verified against its
  contract; the laws of the library are public proof functions named
  `law_*`.
- `app/` is the program around it: command line parsing, configuration
  files, HTTP and WebSocket traffic, D-Bus, desktop notifications, and the
  floating point work (geodesic distances and bearings, writing distances
  and directions). Floating point values travel through the library as
  their IEEE-754 bit patterns.
- `tests/` exercises the library on concrete values.
