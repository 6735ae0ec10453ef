# codex_goals

Goals of a thread, the data that a project keeps of them, and the review gate
that stands between work on a goal and the claim that it is complete.

`src/` is a verified library: every function has a contract that Verus proves.

- `gate` holds the state of the review gate and what may happen to it.
- `review_request`, `gate_turn`, `review_completion` and `result_turn` are the
  flows around it: asking for a review, running it, taking note of its end,
  acting on its result. Each decides from what is known so far what to do next;
  `session` names what can be found out, `prompts` what is said.
- `layers`, `project_data`, `run_dirs`, `goal`, `reviews` and `storage` lay out
  the directory of goal data: where it lies, which run a goal goes on with, and
  what the files in it hold.
- `text`, `path`, `time`, `turn_id` and `version` are what the rest is built on.

Proof functions named `law_...` state what holds of the library as a whole.

`app/` is ordinary Rust around the library: it reads and writes the files, holds
the locks, asks the session and does what the flows decide. `tests/` runs the
library.

The library trusts six functions that it does not prove: `String::push` and
`char::is_whitespace` of std; formatting a moment, writing it in the form of
RFC 3339 and reading the clock, of `chrono`; and making a random UUID, of `uuid`.
Their contracts stand with their declarations in `text`, `time` and `turn_id`.
