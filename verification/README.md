# bevy_garage

The logic of a car-driving game, verified with Verus: the decisions that the
game's systems make about input, the camera, the network lobby, the replay
buffer of its Q-learning trainer, and the ear clipping that turns track
polygons into triangles.

- `src/` is the verified library. Floating-point physics and rendering are
  not in it: where a decision depends only on whole values (keys held,
  identifiers, counts, indices) it is made here, with a contract.
  - `ear_clipping`: the cycle of polygon vertices, the choice of the ear, the
    cut; `triangulate_ear_clipping` takes the corner geometry as a closure and
    returns an ear decomposition in which each cut takes the sharpest ear as
    the closure measures it.
  - `replay`: a ring buffer of transitions, each with its episode-end flag,
    that keeps the latest ones, and the latest batch sent to be persisted.
  - `camera`, `controls`, `light`, `sound`: key, button and action handling.
  - `net`, `gamepad`: channel settings and the lobbies of players and
    gamepads (the gamepads in the engine's own hash set, behind trusted
    wrappers).
  - `dqn`: the trainer's schedule and the crash test on colliding bodies.
  - `api`, `mesh`, `car`, `components`: smaller pieces.
- `tests/` exercises the library on concrete values.
- `app/` is the engine glue and the floating-point code around the library.
