# gw2ei

A verified library for reading Guild Wars 2 combat logs (EVTC) and turning
them into a model of agents, actors and typed combat events.

- `src/parse`: the binary layer (header, agent, skill and combat rows,
  decompression of zip containers,
  recording-tool build, container checks), with contracts over the bytes.
- `src/model`: agents and the agent table, linking agents to rows, merging
  and splitting agents, eventization of the rows, and the assembly of a
  parsed log.
- `src/semantics`: the buff simulator, the proof that it never holds more
  stacks than its logic allows, and the buff statistics in integers.
- `app/`: file and zip reading, error messages, and the statistics kept in
  floating point.

Verus checks every function of `src/` against its contract; `tests/`
exercises the library on concrete logs.
