# sysinfo

The system information of a Linux host: its processors, its memory, its processes and
what it calls itself.

* `src/` is the library, verified with Verus. It takes what has been read (the text of
  `/proc/stat`, `/proc/meminfo`, `/etc/os-release` and the like) as plain values and
  works out what follows: it does no input or output of its own.
* `app/` reads the files, calls the kernel, and keeps a `System` of the library up to date.
  What it cannot read itself (processes, disks, networks, users, temperatures, the make of
  the processors) comes from an implementation of its trait `Sources`.
* `tests/` runs the library on concrete values.

| module | what it is about |
| --- | --- |
| `text`, `chars`, `decimal` | cutting text into pieces and reading numbers |
| `stat` | `/proc/stat`: the boot time and the lines about the processors |
| `cpu`, `cpu_refresh` | what is known of the processors, and how a reading changes it |
| `process`, `process_refresh` | which processes are known, and how a reading changes it |
| `memory` | `/proc/meminfo` |
| `load` | `/proc/uptime` and `/proc/loadavg` |
| `release` | the distribution, the kernel and the host name |
| `limits` | how many files may be kept open |
| `signal` | the signals and their numbers |
| `refresh` | refreshing several parts in one pass, and making a system |
| `system` | the state of the system as a whole |
