# disktree_web

The disktree treemap's web front end as a verified library: a state machine
that a browser drives, the pages it renders, and the HTTP answers it gives.

Everything the library decides is a function of plain values, and every
executable function but the reading of the clock states exactly what it returns
or changes:

- `app`, `navigation`, `finding`, `scanning`, `removal`, `input`: the
  application's state (`Web`, modelled by `State`) and every action on it.
- `tree`, `paths`, `marks`, `single`, `text`, `keys`: the values it works on.
  Screen coordinates are 32-bit floating-point patterns, compared as integers.
- `mosaic`, `explore`, `panel`, `review`, `render`, `palette`, `words`, `json`,
  `spelling`, `spelled`: the pages, character by character, and what they spell.
- `server`, `codec`: routes, the shared secret, replies, and paths on the wire.
- `args`, `tasks`: the command line and the project's own checks.
- `laws`: what holds of the application as a whole.

What the machine has to answer comes in as values: the geometry of a gesture in
`input::Around`, how numbers and paths are spelled in `words::Words`, colours in
`palette::Palette`, scans and removals through the `Effect` an action asks for.

`app/` is the program around the library: the socket, the disk, floating-point
geometry and colour, and the `disktree_core` crate that scans and removes.
