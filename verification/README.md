# rakka_agent

The decisions of a durable agent runtime, verified with Verus: when a continuous
goal wakes, what a dispatched effect may do, how a team arbitrates its shared
board, and the deterministic doubles a recovery scenario is driven with.

Every item under `src/` is verified. Each state machine has a model (a `...Model`
struct over mathematical sequences and maps), every transition is a spec function
on that model, and the executable function is proved to perform exactly that
transition. What holds across transitions is stated as public proof functions
next to the machines or in the `*_laws` modules.

| Modules | What they hold |
| --- | --- |
| `text`, `identity`, `digest`, `json`, `collections` | texts, identifiers, canonical encodings, digests, ordered maps and sets |
| `budget`, `calendar` | budgets on conserved dimensions, rolling and calendar windows |
| `wake`, `wake_error`, `wake_policy`, `wake_state`, `wake_controller`, `wake_scanner`, `wake_laws` | wake identity, policy, the admission controller, the scanner's pass |
| `definition`, `effect`, `guardrails`, `tools`, `tool_authority`, `tool_router` | tool descriptors and registries, the dispatch authority, executor routing |
| `exchange`, `team`, `team_board`, `team_error`, `team_history`, `team_flush`, `team_commands`, `team_entity`, `team_settle`, `team_journal`, `team_laws` | the team entity: membership, board, claims, message ring, history, owed and answered exchanges |
| `testkit_probe`, `testkit_delivery`, `testkit_script`, `testkit_doubles`, `testkit_outcome`, `testkit_dispatch` | exchange probes, failure windows, scripted collaborators, the in-process dispatcher |

`app/` is ordinary Rust around the library: the system clock, stored records with
serde, handles that share a double between owners, and the loops that carry the
library's decisions to stores, guardrail stages, entities and executors.

The outside calls stand behind trusted items: `sha2` for SHA-256,
`serde_json` for JSON values, and two text functions of the standard library for the
embedder. Their doc comments say what is taken on trust.
