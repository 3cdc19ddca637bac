# EasyTex

A local LaTeX preview server: it watches a directory of projects, compiles
them with Tectonic (or latexmk), keeps a history of build runs, and serves the
PDFs, build logs and a small editing API to a browser dashboard.

## Layout

- `src/` is the library, verified with Verus. It holds the decisions of the
  server as functions with contracts: name and path validation and sandbox
  confinement, settings defaults, overrides and validation, the build pipeline
  as a state machine, the retention of build history and run directories,
  the event stream's JSON, log parsing, request routing, and the decoding of
  the frontend archive that the dashboard is served from. Laws that span
  several functions are public proof functions beside the code they speak of.
- The dashboard archive (`frontend-dist.easytex.gz`) is read at start-up from
  beside the binary.
- `app/` is the server around the library: command line, HTTP routes, file
  system and process work, and the loop that performs the pipeline's actions.
- `tests/` runs the library on concrete values.
