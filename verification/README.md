# promptforge

The verified core of PromptForge, a runner for markdown prompts with Lua
sections, and of its inference gateway.

- `src/` is the library, checked by Verus:
  - `md_events`, `md_json`, `md_shape`, `lines`: chunking markdown into the
    flat block list that the `md_to_json` Lua global returns (pulldown-cmark
    parses; the walk over its events, heading paths, line numbers and source
    slices are proved), with the shape every block list has.
  - `cli`, `gateway_config`, `execution`: the `promptforge run` command line
    (clap), validation of `PROMPTFORGE_GATEWAY_URL`/`PROMPTFORGE_GATEWAY_API_KEY`,
    and `cli-` execution ids.
  - `auth`, `models`, `sse`: the gateway's bearer check (SHA-256 digests
    compared in constant time), its `GET /v1/models` catalog, and its SSE relay
    framing (a failure ends the stream with its envelope; only a clean end is
    marked `[DONE]`).
  - `switch_profile`, `inference_route`, `run_flow`: the order of the steps of a
    profile switch, an inference request and a prompt run, decided step by
    step, with what a switch leaves of the live state.
  - `lua_limits`: the Lua VM budgets.
- `app/` holds the process edges: reading arguments, environment and files,
  installing `md_to_json` into a Lua VM through serde, and the axum glue.
- `tests/` runs the library on concrete inputs.
