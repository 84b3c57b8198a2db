# waybar_modules

Waybar modules that draw small bar charts of CPU, memory, network, disk and
temperature readings, report Arch Linux updates, and scrape a page for a
pattern.

- `src/` is the verified library: the reading histories, the chart markup,
  the scale choices of the traffic graphs, the tooltip tables, the
  `checkupdates` layout and the JSON lines the modules print, each with a
  contract proved by Verus.
- `app/` is the program around it: reading the system (`sysinfo`,
  `/proc/stat`, `checkupdates`, HTTP), the floating-point averages, the loops
  that print a line per interval, and the Gtk plugin glue that Waybar loads
  through its CFFI interface.
- `tests/` runs the library on concrete inputs.
