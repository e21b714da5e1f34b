# bsdos_metal_viewer

Viewer library for the bsdOS Wayland display stream, verified with Verus.

- `src/` — the library; every function carries a contract that is proved:
  - `wayland_stream/stream_parser.rs`: the v1 envelope and its five event
    kinds, specified by `spec_parse_events`; parsing inverts `spec_envelope`.
  - `wayland_stream/compositor.rs`: pools, surfaces and frame composition as
    a state machine over `CompositorView` (`step_*` functions); LZ4 blocks
    are decoded by `lz4_flex`.
  - `protocol.rs`: damage rectangles (clamping, merging) and their laws.
  - `receiver.rs`: what one stream packet or health message does to the
    compositor, the shared frame buffer, the counters and the ping state.
  - `input/input_forwarder.rs`: macOS key codes to evdev codes, the pending
    event queue and the keyboard/pointer message bytes.
  - `render_loop.rs`, `texture_upload.rs`, `frame_buffer.rs`,
    `overlay/overlay.rs`, `config.rs`, `wayland_packet.rs`, `ping_state.rs`,
    `packet_stats.rs`, `le_bytes.rs`, `clock.rs`: the remaining decisions and data of
    the viewer.
- `tests/` — tests run against the compiled library.
- `app/` — the macOS program: window, Metal rendering, NSEvent capture,
  Zenoh sessions and threads, calling into the library for every decision.
