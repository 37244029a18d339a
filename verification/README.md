# status_server

A status-monitoring server: elements are online or offline and carry
attributes; components keep them up to date (websites, dataminers, Minecraft
servers, configured names), and notification providers tell users about changes
(websockets, ntfy, e-mail, a history store).

## Layout

- `src/` is the library, verified with Verus. Each module states what its
  functions do in `requires`/`ensures` over mathematical models, and proves it:
  - `state`, `string_map`, `backend`: element states and the store that changes
    them, with the notifications each change causes;
  - `filters`, `email`, `ntfy`, `sockets`, `history`: who is told about which
    change, and with which text;
  - `api`, `frontend`, `login_page`: which requests are answered and how;
  - `website`, `dataminer`, `minecraft`, `names`, `tasks`: what the components'
    checks do to the states, and which of their tasks a new configuration
    restarts;
  - `registry`: loaded components and their dependents;
  - `auth`, `cli`: users, roles, sessions and password hashes;
  - `duration`, `config`, `history_json`, `history_sqlite`: configuration values
    and storage layout.
  Functions named `law_*` are proof functions stating properties that hold
  across calls.
- `app/` is the program around it: command line, configuration files, the HTTP
  server, sockets, mail, HTTP requests and the history files and database.
- `tests/` exercises the library on concrete values.
