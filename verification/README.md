# orchd

A reactive orchestrator for a forge. It listens to the events of issues, decides which of them ask an agent to
act, dispatches the agent onto the issue, lands what it changed, and shows on the issue how that went. It also
deploys the repository that it runs from.

- `src/` is the decision core, a library that Verus verifies. It holds what the orchestrator computes and
  decides: directives and triggers, ranks and who may dispatch whom, the dispatch config, the ledger of
  dispatches, prompts and reading material, landing, finalizing, deploys, roles, notices. Work that alternates
  with the outside (git, the forge, the database, the service manager) is a state machine there: a function from
  a state and an answer to the next state and the next action. The contracts say what each step is; the
  functions named `law_...` state what holds of the whole.
- `app/` is the program around it. It takes the actions, performs them and hands the answers back.
- `tests/` runs the library on concrete values.

Outside crates are called from the library through a few trusted functions, each with a contract of its own:
URLs (`urls.rs`), digests (`digest.rs`), JSON and TOML documents (`documents.rs`), times (`healing.rs`), and one
function of the standard library (`text.rs`).
