# agent_seat_linux

App-scoped capture and input for Linux automation agents, with verified rules.

A *seat* is a private Wayland socket. An application that is launched with it as
`WAYLAND_DISPLAY` stays an ordinary window of the user's compositor, while the
process that owns the seat reads the application's frames and sends it input.
Nothing else of the desktop is captured, and privileged Wayland interfaces are
never advertised to the application.

- `src/` holds the rules: how messages move between the application and the
  compositor, which frame is captured and how it is decoded, which events make
  up a click or a text, how a seat is opened, served and closed, and how an
  application is launched. Every function there has a contract. Verus checks
  them all but those of the small wrappers around outside calls, which it
  believes: each of these says above it what is claimed of the call. Modules whose names end in `laws` state what holds of several
  functions together.
- `app/` does what the rules ask for: sockets, threads, processes, shared
  memory, the Wayland libraries and the keyboard library.
- `tests/` runs the rules on concrete values.

Where a rule needs the outside world it is a small machine: it gives an action,
and is told what came of it.
