# zigzag

A fuzzy finder for the tabs, panes and sessions of a Zellij session, as a
verified library and a thin plugin shell.

- `src/` is the library, verified with Verus:
  - `model.rs`: tabs, panes, keys, host events and host commands as plain data;
  - `text.rs`: decimal numbers, lower-casing, byte-indexed string editing;
  - `style.rs`: terminal styling through `owo_colors` and `ansi_term`;
  - `matching.rs`: the skim matcher of `fuzzy_matcher` with a
    bag-of-characters fallback;
  - `navigation.rs`: moving through the listed entries, picking the best score;
  - `panes.rs`: the cross-tab pane list, stably sorted by tab position;
  - `state.rs`: the state machine driven by keys and host events;
  - `render.rs`: the text of the screen;
  - `laws.rs`: properties relating several operations.
- `app/main.rs` registers the plugin with Zellij, converts the host's events,
  carries out the commands and prints the screen.
- `tests/` runs the library on concrete values.
