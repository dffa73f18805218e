# lapsphere

The control daemon of a laptop hardware manager: CPU frequency and power
controls, keyboard backlight, fans, battery charge limits, NVIDIA overclocking
and the hardware inventory the GUI shows.

- `src/` is the library, verified with Verus: which sysfs writes are allowed,
  how polling intervals follow the GUI's settings, when a discrete GPU may be
  queried without waking it, how adapters are identified across NVML and
  sysfs, and the parsers for the text the kernel and the system tools print.
  Each public function states its result in its contract, except where the
  result is the wall-clock time (`gpu_activity::now`); a scheduled job's run
  is stated through its poll function's own contract (`call_ensures`). The
  properties that span several calls are public proof functions (`lemma_*`).
- `app/` is the daemon around it: file and device I/O, NVML, the NVIDIA API
  library and control node, D-Bus, the polling loop, and the floating-point
  telemetry. It hands the library plain values and carries out its decisions.
- `tests/` runs the library on concrete inputs.
