# tiledeck

A terminal deck for a KDE Plasma desktop: it draws the monitors and windows
that `kdotool` reports, and offers paged buttons that tile, move, size, close
and scatter windows and swap the default audio sink.

`src/` is the verified library: reading the tools' output, building the
desktop model (windows largest first, monitors left to right with the space
panels leave), tiling geometry, hit-testing and clipping on the terminal
screen, the command plans for each action, and the interaction state machine.
`src/laws.rs` holds the properties that span several functions.

`app/main.rs` is the program around it: the terminal, the event loop, the
clock, running the commands, and the floating-point scaling between desktop
pixels and terminal cells.
