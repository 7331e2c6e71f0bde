# zitch

A controller-friendly big picture itch.io client, for a TV across the room and for handhelds in
the hands.

- `src/` is the library: the rows and pages of the interface and what each press does to them,
  the download queue, installs, updates and launches, what a handheld's firmware can run and how
  it is handed a game, signing in from another device, the program's own updates, and the care
  of cover art. Every function carries a contract that Verus proves. Calls into other crates
  stand behind small wrappers, each of which says what it takes on trust.
- `tests/` runs the library on concrete values, with those crates linked.
- `app/` is the program around it: the window, the drawing, controllers, threads, files, the
  network and the conversation with butler.
