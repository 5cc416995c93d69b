# finalizer

A CPU frequency scheduler daemon for Android devices. It applies a per-mode
cpufreq policy to each CPU cluster, follows the load of each cluster, boosts on
touch, keeps games on their own profile and lowers the ranges while the screen
is off.

- `src/` is the verified library: the text handling (trimming, lines, words,
  numbers), the configuration and game list checks, the `/proc/stat` load
  sampler, the cpufreq write planner and frequency table, the scheduling state
  machine, the manager's event plans, the `dumpsys` report readers and the log
  level filter. Every function there carries a contract that Verus proves.
- `app/` is the daemon around it: reading the TOML files, the sysfs, procfs,
  inotify and evdev I/O, the threads and channels, the log file, and the
  floating-point load arithmetic.
- `tests/` runs the library on concrete inputs.
