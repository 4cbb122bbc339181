# katoa

The decisions of the `katoa` command line, as a verified library, and the program around them.

- `src/` holds the library: where pipelines are found, which git events start them, which commands
  are handed to deno and to the container program, which images are pulled, how jobs are ordered,
  and what the ends of jobs and phases lead to. Every function carries a contract that Verus proves.
  What goes through another crate stands behind a small function whose contract is trusted; its doc
  comment says what it claims.
- `app/` holds the program: arguments, files, processes and prompts. It asks the questions that the
  library's states ask, and hands the answers back.
- `tests/` runs the library on concrete values.

Work that alternates with the outside is a value that says what it waits for (`DirSearch`,
`PipelineLookup`, `Daemon`, `ImagePlan`, `RunState`, `InitState`, `NewState`, `Next`); the answer
takes it to the next one.
