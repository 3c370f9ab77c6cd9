# nylon

The core of a digital audio workstation, with its contracts proved.

`src/` is the verified library:

- `audio`: device names, rate lists, device descriptions, stream
  configuration and its validation, the errors a host reports, and the
  traits a renderer, a capturer and a stream implement.
- `offline`: the offline host, whose streams render or capture only when
  driven, with the start and stop rules they follow.
- `host`, `alsa`, `wasapi`, `coreaudio`: what the hosts decide from what
  the system reports: device identifiers, listings, defaults, granted
  buffer sizes and channel counts.
- `engine`: the transport and the checks a block passes before rendering.
- `schedule`: note events on a block and their stable ordering.
- `delay`: the write cursor of a delay line over caller-owned storage.
- `exchange`: publication of state to the audio thread through slots
  holding one value each way.
- `routing`, `recording`, `media`, `dsp`, `voices`, `timeline`: limits,
  budgets and errors of the mixer's device chains and graph, the recording
  queue, automation, the processors, the instrument's voice allocation and
  the placement of audio regions.
- `worker`: the framing of the plugin worker's protocol.

`app/` holds what computes on floating-point samples (the processors, the
gain engine, device chains, sample playback, note scheduling in beats, the
instrument) and the ALSA output host, built on the library.

`tests/` exercises the library on concrete values.
