# mems_lidar

Point-cloud viewer for a MEMS LiDAR scanner. The scanner streams UDP
datagrams of eight-byte measurement records; a lookup table read from an
Excel sheet maps the two mirror-drive voltages of a record to deflection
angles, and each record becomes a 3D point.

- `src/` is the verified library (Verus):
  - `packet.rs`: the wire format of measurement records and the decoding of
    a datagram;
  - `lookup.rs`: the header of the lookup table and the index of its blocks
    of rows with equal first voltage;
  - `signal.rs`: the live distance waveform and histogram;
  - `command.rs`: the hex commands sent to the scanner;
  - `logger.rs`: the bounded log buffer shown in the log panel;
  - `icon.rs`: decoding of the window icon's image file;
  - `measure.rs`, `perf.rs`, `render_plan.rs`, `session.rs`, `modes.rs`:
    the viewer's measuring tool, rate counters, GPU upload decisions and
    interaction state.
- `app/` is the program around it: window, GPU rendering, camera, UI,
  networking, the Excel reader, and the floating-point geometry.
- `tests/` exercises the library.

`app/` also needs `wgpu` 0.19 and `egui-wgpu` 0.26 for GPU rendering, which
Cargo.toml does not list.
