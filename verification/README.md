# dispatch

Rules for carrying autonomous software work from a task to a reviewed result: which resource works on
it, when an attempt may start, what its return makes of the goal, what is shown of it, and when it may be
applied.

- `src/` is the library. Every function in it states what it does and is proved to do it. It holds no
  input or output: what was read comes in as plain values, and what is to be done comes out as one.
- `app/` is the edge: processes, files, locks, the terminal, and the loops that wait for them.
- `tests/` runs the library on concrete values, with the crates that it calls.

| Module | What it decides |
|---|---|
| `router` | which configured resource takes a task |
| `orchestrator::native`, `phase3`, `planned` | the attempts of a goal, from launch to delivery |
| `orchestrator::attach`, `background`, `serve` | work of agents that somebody else started |
| `orchestrator::launch` | the settings that an agent is launched with |
| `orchestrator::apply` | when a result may change the source |
| `planning` | which plans are accepted, and what their tasks may touch |
| `private_evidence` | what is counted over past goals, and when that may change a decision |
| `public_priors` | the form of shared routing data |
| `presenter` | what is shown of a goal and of its change, and what typed words and keys mean |
| `runtime` | sessions that agent runtimes report |
| `setup` | how a resource is authorized |
| `yaml` | how one setting of a configuration is replaced while all others stay |
| `process`, `record`, `digest`, `text`, `text_map`, `bytes` | what the others share |

Calls into other crates stand behind small functions whose contracts are believed, not proved; each says
which call it makes and what it claims of it.
