# glideslope

A terminal-first IFR operations simulation: the player is Pilot Flying,
delegating to a First Officer, working checklists, requesting ATC
clearances and flying the phases of a flight from the stand to shutdown.

## Layout

- `src/` is the verified library. Every function there carries a
  `requires`/`ensures` contract; Verus checks each one against its body,
  except three small wrappers around outside calls (`Vec::push` and
  `String::push` from std, and ratatui's layout solver), whose contracts
  are taken on trust from the documentation and source of what they call:
  - `sim_core`: time, ticks, the fixed-timestep accumulator, ids, events
    and the event bus;
  - `parser`: the command line (words, numeric literals read exactly and
    shown back as std's float formatting shows them, the command grammar
    and its error messages);
  - `atc`, `checklist`, `crew`: clearances, checklists and the FO's task
    queue;
  - `sim`: the flight-phase state machine and `SimCore`, the discrete
    part of the simulation that runs once per tick;
  - `console`: the operator console's prompt, log and listings, and the
    step that carries out a submitted line;
  - `panels`: the screen layout (through ratatui's layout solver) and the
    text of the FO queue and ATC panels.
- `app/` is the program around it: the terminal loop (crossterm and
  ratatui), the aircraft, engine, FO and airport models, which are
  floating point, and the drawing of the screen.
- `tests/` exercise the library from outside.

The simulation advances on a fixed 10 Hz tick regardless of frame rate;
the aircraft's continuous state is integrated by `app/` each tick and the
conditions the phase machine reads are handed to `SimCore::tick`.
