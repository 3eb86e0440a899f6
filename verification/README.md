# oil-cop

Color-coded visibility into a Gas City stack -- rigs, agents and bead
queues -- with the health rules, the text views and the joins of the
tools' answers specified and proved with Verus. The tools themselves are
reached through adapter traits: each request carries a relation naming
the answers an adapter may give, and every view is stated over whichever
answers came and over what was asked.

- `src/` is the verified library:
  - `health` -- durations, bead and agent health, the roll-up of signals;
  - `config` -- how the configuration files and the command-line flags combine;
  - `sources` -- what `gc`, `bd` and `git` are asked (argument lists), the
    shapes of their answers, the adapter traits the rest reads them
    through, in-memory adapters for tests, the fetch throttle, and how a
    failed run is reported;
  - `assemble` -- the city, queue, agent, DAG, session, handoff-gap and
    check views built from those answers;
  - `render` -- each view laid out as styled text, then painted through the
    `colored` crate;
  - `text` -- character-level string helpers.
- `app/` is the `oil-cop` binary: argument parsing, reading the
  configuration files, running the tools, JSON output, exit codes and the
  `watch` loop.
- `tests/` runs the library on concrete inputs.
