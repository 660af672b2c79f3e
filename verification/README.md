# codex_runtime

The decisions of an agent runtime, verified with Verus: which proxy a request
takes, how streams of an encrypted relay open and close, which script a command
runs, how messages of servers are framed, in which order threads are stored and
deleted, what a terminal tab shows.

- `src/` is the library. Every function states what it returns or changes, and
  public proof functions whose names begin with `law_` state what holds of several
  functions together.
- `src/outside/` holds everything that is believed without proof: the calls into
  other crates, each with what is claimed of it.
- `tests/` runs the library with those crates.
- `app/` does the I/O around the library: files, processes, sockets, the terminal
  and the environment. It performs what the library's state machines ask for and
  reports back what happened.
