# soksak_kit_sidecar_terminal

The shared recovery runtime of a terminal-state sidecar, with its rules verified by Verus.

A sidecar observes the output of a terminal through the PTY sidecar, keeps a mirror of the screen,
hands that screen over without losing or repeating a byte, archives it encrypted, and paints it into
surfaces that an application composites. A provider supplies an engine or a mirror; nothing here
interprets terminal output beyond the switch to the alternate screen.

## Layout

- `src/` is the library. It holds what the sidecar decides and computes, on plain values, each
  function with its contract.
  - `mirror`, `engine`, `state`, `paint`, `frame`, `cells`: the mirror of one terminal, its repaint
    and its frames; `continuity` states what holds across its calls.
  - `delta`, `subscribers`, `report`: what a frame request is answered.
  - `checkpoint`, `crypto`: sealed checkpoint files, who owns a pane, which commit wins.
  - `daemon`, `proto`, `json`: the messages to and from the PTY sidecar.
  - `runtime`: sessions, requests, the service connection and the checkpoint worker.
  - `render`: glyph placement, instances, the painter, themes, surface sessions and the render loop.
  - `input`, `selection`, `modes`: pointer and wheel routing, selection gestures, mode reports.
- `app/` is ordinary Rust around it: sockets, files, threads, native surfaces, serialized forms.
- `tests/` runs the library on concrete values.

## What is proved

Every function in `src/` states what it returns or changes, and does not panic on what it accepts.
Properties that span functions are public proof functions whose names begin with `law_`: what a
delta rebuilds, that output is neither lost nor repeated however it is cut, that the primary screen
survives the alternate one, that a handover continues exactly, that a written checkpoint reads back,
that the committed sequence of a generation never goes back and a retired pane takes no commit, that
two glyphs never share a pixel of the atlas, that a target is owed exactly what it does not show, and
others.

## Starting a service

A service is started with `-home` and `-runtime` and reads its name and its peers from the
environment. A label in `SOKSAK_PROCESS_LABEL` is published in the announcement and the greeting as
`processLabel`; it is for inventories and monitoring and changes nothing else.

What is believed without proof is a call into another crate or the standard library, declared beside
its contract in `crypto`, `json` and `text`.
