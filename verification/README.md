# tmux_expose

The logic of a Mission Control-style tmux session switcher, verified with Verus.

- `src/` is the library. It holds the session model and the picker's state, the order of the grid
  and the jump to the next session that needs you, the tmux commands and how their replies are
  read, the badges that agent panes give their sessions, and the color names of the command line.
  Every function states in its contract what it returns; the functions named `law_...` state what
  holds across them.
- `app/` is the program around it: command line, terminal, drawing, key strokes, and running tmux.
- `tests/` run the library on concrete values.

What is believed without proof stands next to its use: a few functions of `std` on strings in
`src/text.rs`, and ratatui's color parser in `src/color.rs`.
