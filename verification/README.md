# sentinel

Continuous observation of a browser page through the Chrome DevTools
Protocol: every DOM mutation, network request, layout shift, console
message and animation between actions is recorded, and an action ends with
a structured report once the page has settled (or the wait timed out).

## Layout

- `src/` — the verified library (Verus). Each module states its behaviour
  in `requires`/`ensures` contracts over mathematical models and proves it.
  - `page` — the page observer: the state it keeps and the decision it takes
    on each event (what to record, what to stream, what outside work to do).
  - `stability` — dual-mode settle detection (200 ms actionable, 1000 ms
    settled, hysteresis over quiet windows, 10 s timeout).
  - `timeline` — bounded event history with an action marker and age-based
    collection.
  - `dom_tree`, `dom_node`, `dom_walk`, `dom_build` — the live DOM tree kept
    in a slot map, with its well-formedness invariant and rendering.
  - `snapshot` — rebuilding a tree from a DOMSnapshot capture, and the exact
    check of when a capture can be rebuilt.
  - `network`, `table` — request tracking; a string-keyed table.
  - `calls` — the CDP client's book of pending calls.
  - `sensor`, `actuator`, `browser`, `daemon` — the decisions of the sensor,
    the actuator, target selection and the daemon protocol.
  - `visual`, `regions`, `screenshot` — screenshot decoding, mean hashes,
    changed-pixel masks and changed regions.
  - `budget`, `compare`, `recording` — budget rules, baseline verdicts and
    recording counts.
  - `clock`, `text`, `cdp_types` — time base, string helpers, protocol
    payloads.
- `app/` — the command-line program around the library: process and socket
  I/O, the WebSocket client, JSON (de)serialisation and the floating-point
  measurements.
- `tests/` — tests of the library's behaviour on concrete inputs.
