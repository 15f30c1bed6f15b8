# altair-ebpf

A runtime process-execution monitor for Linux hosts running containers. A
kernel probe on `sys_enter_execve` reports each execution; this crate decides
what to make of it, and every decision is proved correct with Verus.

`src/` (verified):

- `event`: the execution record, how the probe builds it from the kernel
  helpers' values, and its command name and path as text.
- `severity`: `INFO` / `LOW` / `MEDIUM` / `HIGH`, their labels, colours and
  parsing.
- `rules`: the binary whitelist and the severity rules.
- `cgroup`: reading `/proc/<pid>/cgroup` texts (cgroup path, container id).
- `docker`: the index of running containers and container detection.
- `report`: what is printed and logged (JSON lines) for an event, and the
  banner.
- `cli`: the command-line options.
- `text`: character-level helpers (words, trimming, decimal numbers, padding,
  JSON escaping) with their specifications.

`app/` is the program around it: it loads the probe, polls `docker`, reads
`/proc`, and prints and appends what the library returns.
