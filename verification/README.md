# asiobridge-core

The routing core of an audio bridge, verified with Verus.

`src/` is the verified library:

- `rack`, `connection`: racks of channels, their labels, and connections between channels.
- `engine`: the engine's state (racks, connections, settings, profile slots, network
  stream settings, recorder state) and `route_audio`, which decides for each buffer of
  input whether it bypasses, passes through, or is mixed along which routes.
- `profile`: eight profile slots and keyed settings.
- `network`: stream settings and the UDP packet format (count header, little-endian samples).
- `sample_ring`: a FIFO of samples over ringbuf's `HeapRb`.
- `recorder`, `resampler`, `devices`, `control`: recorder state and file names, resampler
  settings, device labels and matching, and what the user interface is shown.

Samples travel through the library as the bit patterns of `f32` values; the arithmetic on
them (mixing, levels, normalisation, resampling) is in `app/`, with the audio devices
(cpal), sockets and threads, files, and the user interface commands (tauri).
