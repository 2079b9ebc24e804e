# cutlass_ai

The AI editing agent of the Cutlass video editor: a model proposes timeline
edits through a closed tool vocabulary, edits are validated against the
project before the engine applies them, and every step is observable.

Validation covers every command without time or parameter values (ids,
lanes, links, effects, transitions, markers, canvas) and the timed and
parameter commands split, trim, move, duplicate, shift, set_transition,
add_marker, set_marker, add_clip, ripple_insert, set_clip_speed,
set_param_constant, remove_param_keyframe and apply_easing_preset: seconds
become frame ticks and float values become presence flags before the
library rules on references, lanes, extents, keyframe positions, parameter
selectors and value shapes. The remaining commands (set_param_keyframe,
add_generated, set_generator, set_clip_transform, set_clip_crop,
set_effect_param and the look and audio-level commands) are refused: their
lowering rests on float parameter and spatial-tangent helpers this build
does not include.

Sets of call ids and tool names that the agent keeps are held as `Vec`s
with their distinctness stated as an invariant: std's `HashSet` has a
vstd specification, but its contracts hold only for key types that obey
vstd's hashing model, which vstd establishes for integers and not for
`String`, and this crate assumes nothing, so no membership fact could be
proved through it.

## Layout

- `src/` — the verified library (Verus). Each public function states what it
  returns over spec functions and views; the laws of the library are public
  proof functions beside the code they are about.
  - `catalog`, `config` — supported models per source, settings checks,
    API-key resolution, which provider a configuration builds.
  - `provider`, `transcript` — messages, tool calls, provider errors; the
    per-request image budget and what session history keeps.
  - `wire`, `validate`, `action_log`, `describe` — the edit vocabulary, id
    remapping for plan replay, command validation over a plain project
    snapshot (timed commands in frame ticks), transcript lines for applied
    edits, canvas sizing.
  - `agent` — the agent loop's decisions: caps, phase breaks, call routing,
    admitted host tools, the system message and every model-facing text.
  - `compat`, `responses` — the Chat Completions and Responses streams
    assembled into turns, retry policy, request bodies and replay.
  - `schema` — JSON values as the library holds them, and the compaction
    of tool argument schemas.
- `tests/` — tests run against the compiled library.
- `app/` — the unverified shell: HTTP providers, JSON schemas and serde
  types, the agent loop that drives provider, engine and host, the project
  summary built from the engine's models, and settings wiring.
