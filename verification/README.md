# paperdoll

A poseable paper-doll character: a humanoid skeleton posed and animated from
YAML-defined targets, with interruptible transitions between poses, meant to
be driven by an agent over an HTTP API.

`src/` is the verified library (Verus). Every function there carries a
contract, and the properties the library promises across calls are stated
as proof functions (`lemma_*`):

| module | contents |
|---|---|
| `named_map` | the name-keyed map used for joints, expressions, poses and animations; sorted key listing |
| `text` | character-level string helpers: trimming, case folding, decimal digits, ordering |
| `skeleton` | the joint hierarchy and the default humanoid |
| `model` | poses, keyframes, animations, camera patches |
| `pose`, `resolve` | joint-name resolution; resolving authored animations against the pose library |
| `timeline` | keyframe arrivals, blend durations, splitting a blend at the playhead |
| `playback` | the playback clock behind transitions, animations and scrubbing |
| `command` | what a rig command does: switch visuals, set face weights, blend to a pose, play an animation once |
| `idle` | returning to the default pose after inactivity; "bored" autoplay |
| `symmetry`, `hand` | left/right mirroring of joint edits; hand gestures |
| `editor`, `session` | the pose/animation editor: joint inspector, keyframe overrides, status line, save/rename/delete decisions, preview |
| `api` | request checks, status codes and the expression catalog of the HTTP API |
| `catalog` | the agent-facing pose and animation boards and catalogs |
| `variant`, `cli` | launch configuration, asset paths, the `import-vrma` command line |
| `json` | what a JSON text holds at a JSON pointer, read through serde_json, and the pointers themselves |
| `vrm`, `vrma`, `bone_table` | the GLB container, VRM expression presets, the animation extension's bone and expression tables, the VRM bone table's laws, and the integer side of VRM Animation import |

`app/` is the `paperdoll` program around the library: it reads and writes
files, parses YAML, samples animation curves in floating point,
and runs the `.vrma` import commands. It has no renderer or HTTP server.

`tests/` holds the library's tests.
