# ai_surfer

The verified core of an LLM-driven browsing agent.

- `src/` is the library, verified with Verus: the agent's step-by-step run
  control (`agent_run`, `run_step`), prompt building (`prompt`, `plan`,
  `step_message`, `clickable_map`, `detect_loop`), recovery of the model's
  decision from its answer (`parse_output`, `salvage`), repetition detection
  (`loop_detector`, `action_hash`), URL shortening for prompts
  (`url_shortening`, with the round-trip proof in `url_round_trip`), the
  press-and-hold mouse gesture (`mouse`), screenshot file naming
  (`screenshot`), settings (`config`), tab bookkeeping (`targets`), which
  navigations are reported (`navigation`) and the hosted-browser service's
  requests (`cloud`, with URL handling in `urls`).
  Calls into outside crates (SHA-256, regular expressions, an insertion-ordered
  map, UUIDs, URLs) go through small trusted functions whose contracts state what
  the crates document.
- `app/` is the program around it: command line, environment, logging, JSON
  (de)serialization, files, HTTP and the Chrome DevTools Protocol.
- `tests/` exercises the library on concrete values.
