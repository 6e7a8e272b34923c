# cealn

The decisions of a build server: how guests see files, how sources are watched, how the queries of a
build are answered and kept, and what clients are told. Everything under `src/` is verified with Verus;
`app/` is the ordinary Rust around it that reads, writes, waits and runs processes.

| Group | What it holds |
| --- | --- |
| `src/base` | texts, bytes, paths, sets and tables of names, digests |
| `src/api` | the file descriptors, rights and calls that a guest has |
| `src/fs` | archives in memory, pipes, devices, and directories of the host |
| `src/runtime` | the memory of a guest, and the scripts that run in it |
| `src/source` | the files of a workspace: what was seen of them, and when they change |
| `src/graph` | the queries of a build, the results that are kept, and when they are out of date |
| `src/server` | jobs, logs, reports of errors, builds and runs |

Work that alternates with the outside is a state machine: a method takes what was seen and gives the next
step, and `app/` performs the steps. Public proof functions state what holds across calls.
