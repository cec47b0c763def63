# arieltune

A tuning suite for the BC-250, a board around an AMD Cyan Skillfish APU: CPU
overclock and undervolt, GPU clock and voltage, compute-unit routing and health
test, core unlock, fan control, kernel patch series, tuning profiles, and the
records of the system manual.

The library under `src/` is verified with Verus. It decides and computes; it
touches no hardware. What reaches the hardware is handed out as plain data: the
mailbox messages of a CPU operating point, the register writes of a route, the
steps of a kernel build, the action that a key press asks for. The contracts say
exactly what that data is, and the laws beside them say what it never does:
pass over the voltage ceiling on the way from one operating point to another,
move the clock before the voltage, route work onto an empty shader array, turn a
thermal demotion into a higher clock.

Formulas and measurements that are defined in double precision, such as the
voltage curve, the working rate of the governor or the throughput of a test, are
computed on mantissas and exponents, each operation exact and then rounded. The
tests hold them against floating point.

`app/` is ordinary Rust around the library: sysfs, debugfs, PCI configuration
space, processes, Vulkan, the terminal, and the saved forms of the settings.

| Modules | What they hold |
| --- | --- |
| `ocq3`, `smu`, `hal` | mailbox protocols and the register aperture |
| `cpu`, `stress` | operating points, staged writes, the stability sweep |
| `dpm`, `gpuctl`, `telemetry` | GPU setpoints, daemons, pins, sensors, overdrive |
| `cu`, `curoute`, `cutest`, `compute` | harvest map, routes, known-answer test, dispatches |
| `cores`, `acpi` | core states, unlock, sweep, idle-state tables |
| `detect`, `patches`, `kbuild` | the patch series, its traces, the kernel build |
| `profile`, `board` | tuning profiles, board identity and write gates |
| `manual_book`, `manual_data` | the manual as chapters and as records |
| `screen`, `refresh`, `status`, `gather`, `activity` | the control screen's state |
| `pages`, `cpu_page`, `cores_page`, `cu_page`, `popup`, `ui` | what it shows |
| `double`, `text`, `sorted` | double precision, text and order, with their specifications |
