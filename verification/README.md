# Astrea

A file-based router for Axum: the files under `src/routes/` are the routes
(`users/[id].get.rs` serves `GET /users/{id}`), `_middleware.rs` files scope
middleware to their directory, and each handler's doc comment and body give
its OpenAPI description.

The routing, naming, middleware-scoping, handler-analysis, OpenAPI, request
and response logic lives in `src/`, written in Verus with contracts proved
by the verifier. `app/` holds what surrounds it: reading the routes
directory, turning Rust syntax into the library's syntax models, rendering
the generation plan as tokens, and connecting requests, responses, SSE,
WebSockets and the OpenAPI registry to Axum, Tokio and serde.

Modules of `src/`:

- `parser`, `utils`: route files to routes (method, Axum path, module name).
- `scanner`: a directory listing to the middleware scope tree and the
  startup tables.
- `codegen`, `layers`: the generation plan (module declarations, route and
  OpenAPI registrations, router expression) and the proof that the router
  wraps each route by exactly the middleware of its scope chain.
- `route`: what a `#[route(...)]` argument asks for.
- `ast`, `analysis`, `doc`, `meta`: handler analysis and metadata.
- `openapi`, `openapi_doc`, `json`: the registry and the OpenAPI document.
- `event`, `extract`, `response`, `error`, `sse`, `middleware`: the request,
  the response, route errors and Server-Sent Events.
- `text`, `order`: string and ordering helpers.
