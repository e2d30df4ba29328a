# pwsounddeck

A soundboard plugin for OpenAction servers (OpenDeck): each Play Audio key
plays one file on a chosen PipeWire/PulseAudio sink, in one of four playback
modes; a Stop Audio key stops everything.

- `src/` is the library, verified with Verus: the playback-mode decisions
  (`decision`), the registry of playbacks kept in a `DashMap` (`registry`),
  what a key press or release does to it (`actions`), the key settings
  (`settings`), the device list read from `pactl` JSON output (`sinks`) and
  the properties that hold across these (`laws`).
- `app/` is the plugin itself: the OpenAction event loop, audio output through
  rodio, running `pactl`, the file picker and logging.
- `tests/` runs the library on concrete presses and listings.
