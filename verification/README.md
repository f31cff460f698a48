# Artemis

Artemis watches a process, its log files and the resources of its host. What goes wrong becomes an
incident: it is recognised by its fingerprint, counted while it repeats, recorded, and escalated to
an agent service that may handle it.

## Layout

- `src/` is the library, verified with Verus: what an error is, which incidents are the same, what
  is recorded and escalated and when, what is written and sent.
- `tests/` runs the library.
- `app/` is the program around it: arguments, files, processes, threads, signals and the network.

| Modules | What they hold |
| --- | --- |
| `matcher`, `matcher_laws`, `patterns` | errors and stack traces in lines of output |
| `fingerprint`, `incident` | what makes two errors the same, and what is known of one |
| `dedup`, `dedup_laws` | deduplication, cooldown and the storm guard |
| `recorder`, `recorder_laws` | the intake: what is kept, written and escalated, and shutdown |
| `supervisor`, `watcher`, `resource`, `shutdown` | the three sources of incidents, and their end |
| `diagnostics`, `store`, `requests`, `json` | what goes with an incident, to disk and to services |
| `onboard`, `onboard_laws`, `ai` | the configuration of a new project |
| `config`, `clock`, `text`, `table`, `sort` | what the others stand on |

The functions whose names start with `law_` state what holds over several calls or in every state.
What the library takes from `regex`, `chrono`, `uuid` and `serde_json` stands in a few small
functions whose comments say what is relied on.

The program needs an assistant that can be called from the command line for `artemis onboard`; the
environment variable `ARTEMIS_ASSISTANT` names it. Without one, the configuration is made from the
files of the project alone.
