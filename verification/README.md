# yasr

A screen recorder for Wayland that pipes raw frames into `ffmpeg`.

- `src/` is the verified library (Verus): reading the encoder list that
  `ffmpeg -encoders` prints, choosing the encoder, the container and the
  frame rate, building the `ffmpeg` command line, locating the VAAPI render
  node and drivers, and the decisions of the terminal interface (key
  handling, the kept log lines, panel texts, the log window's placement).
- `app/` holds the programs: argument parsing, screen capture, running
  `ffmpeg`, drawing the terminal interface. Started as `yasr-tui` it runs the
  terminal interface, otherwise the command-line recorder.
- `tests/` runs the library on concrete inputs, and compares its string
  handling with the standard library's.
