# memwatchdog

A Linux memory watchdog: it reads `/proc/meminfo` at a fixed interval and,
when available memory falls below a critical threshold, terminates the
non-whitelisted process with the highest resident memory (SIGTERM, a grace
period, then SIGKILL). Below a higher warning threshold it logs a warning
once per low-memory stretch.

Layout:

- `src/` is the verified library. Every decision of the daemon is
  made there and carries a contract:
  - `text.rs`: trimming, splitting, line and word handling, decimal numbers;
  - `config.rs`: defaults, the `key=value` configuration file format, the
    command-line options (one argument per step), the usage text;
  - `sysinfo.rs`: memory figures from the lines of `/proc/meminfo`;
  - `process.rs`: the choice of the process to terminate from what `/proc`
    shows of each process, with the laws that the choice is the first
    process with the highest resident size and never a protected one;
  - `terminator.rs`: the SIGTERM / grace / SIGKILL sequence as a state
    machine, with the laws that a dry run never signals and SIGKILL only
    follows a delivered SIGTERM and a full grace period;
  - `watchdog.rs`: what to do on each memory reading, with the law that a
    stretch of low memory is warned of once;
  - `notifier.rs`: log lines and notification texts.
- `app/main.rs` is the daemon around it: command line, files, signals,
  clock, logging and `notify-send`.
- `tests/` runs the library on concrete inputs.
