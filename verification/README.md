# ukiapi

The core of a FastAPI-style web framework, written in Verus: each function
states what it does in `requires`/`ensures` clauses, and Verus proves it.

## Layout

- `src/` — the verified library.
  - `json` — the JSON model the library reads and writes, with its view.
  - `routing`, `openapi`, `openapi_laws` — routes, routers and applications,
    and the OpenAPI document built from them (every route documented, every
    `#/definitions/` reference moved to `#/components/schemas/`).
  - `projection` — keeping or dropping fields of response bodies.
  - `exception`, `status`, `headers`, `responses`, `extractors` — errors,
    status codes, header lists and the responses the framework sends.
  - `auth`, `dependencies` — bearer tokens, JSON Web Tokens, and dependencies
    resolved once per request.
  - `upload` — choosing the uploaded file and reducing its name to a bare
    file name.
  - `background_tasks`, `health`, `docs` — tasks run after a response, the
    health endpoint, the documentation pages.
  - `route_plan` — what a route attribute derives from a handler signature.
  - `ws` — the WebSocket echo's step.
  - `cli` — the command-line tool's decisions (binary to run, environment,
    cargo arguments, banner, new-project manifest).
  - `example`, `models` — the example application's decisions and data.
- `tests/` — tests run against the compiled library.
- `app/` — the unverified glue: conversions to and from `serde_json`, axum
  responses and extractors, dependencies, the server with its start-up and
  shutdown hooks and layers, a test client, the example application, and the
  command-line tool's I/O.

Calls into `jsonwebtoken`, `mime_guess`, `http` (through `axum`) and `serde_json`
sit behind small trusted wrappers whose contracts are stated in their doc
comments.
