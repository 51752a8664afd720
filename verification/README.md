# coding-env

A command-line tool that keeps API configurations, versioned development
plans, plan templates and project-to-plan associations for AI coding
assistants, and prints the shell commands that enter a project's environment.

- `src/` is the verified library. `models/` holds the stored records and the
  list operations on them; `services/` the operations of each command (adding,
  activating and deleting API configurations, plan versions and rollback,
  templates read from XML, project associations, the assistant's settings, the
  environment script); `storage/` the layout of the configuration directory;
  `text.rs` the character-level text handling; `clock.rs` and `ids.rs` the
  calls for the current time and random ids. Every operation states its
  result over the records' views, and the laws that tie operations together
  are public proof functions beside them.
- `app/` is the program around it: the command line, reading and writing the
  XML and JSON files, and printing.
- `tests/` runs the library on concrete values.
