# rust_top

A terminal system monitor: CPU, memory, disks, network, temperatures and
processes on one screen, refreshed every 1000–5000 ms.

- `src/` is the library, verified with Verus: number and byte formatting
  (down to the bits of the floats it prints), the layout arithmetic of the
  screen, the widgets' state (refresh button, task bar, process list with
  its search and sort, network history, core grid, temperature list), the
  key and mouse handling, and the reading of `lscpu`'s report.
- `app/` is the program around it: it reads the system through `sysinfo`,
  draws with `ratatui`, waits for `crossterm` events and asks a time server
  for the clock.
- `tests/` runs the library on concrete values.
