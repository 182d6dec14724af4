# rust_browser_mcp

A browser-automation server for the Model Context Protocol: it drives
Chrome, Firefox and Edge through WebDriver, runs stored automation recipes,
and serves its tools over stdio or HTTP (optionally behind OAuth).

## Layout

- `src/` — the verified library (Verus). Every decision the server makes is
  here, with its contract:
  - `config`, `driver`, `client`: configuration from the environment, the
    registry of driver processes and healthy endpoints, the endpoint plan for
    a session, capabilities, command lines, process-list parsing;
  - `pool`: per-driver session pools (capacity, acquire/release, idle sweep);
  - `recipe`, `manager`, `execution`: recipes, their check and parameter
    substitution, file names and listings, templates, and the per-browser run
    state machine with retries;
  - `actions`, `login`, `forms`, `performance`, `elements`, `driver_tools`,
    `recipe_tools`: reading tool arguments and wording tool answers; the
    login and form-filling state machines; what each step of a performance
    test does;
  - `tools`: which tools each server mode declares and serves;
  - `auth`, `keycloak`: token extraction and checks, OAuth replies, the
    keyed stores, metadata documents, token introspection;
  - `json`, `text`: the JSON and string operations the rest is proved
    against.
- `app/` — the program around the library: command line, browser and
  process I/O, the MCP transports and the HTTP/OAuth routes.
- `tests/` — tests of the library on concrete values.
