# michi

Agent-facing response primitives, verified with Verus: TOON lists,
column-aligned key-value blocks, char-safe truncation, structured errors
with hints and recovery paths, status blocks, retry arithmetic,
`Retry-After` parsing and idempotency keys.

## Layout

- `src/` is the verified library. Every rendering is specified as a spec
  function over character sequences, and each executable function is proved
  to produce exactly that text. Laws that relate several functions are public
  proof functions named `law_*`, next to the functions they speak of.
- `app/` holds what stays outside the proofs: the system clock as a
  `SystemTime`, floating-point jitter and float formatting, serde shapes of
  the library's types, `std::error::Error` and miette integration, and
  asynchronous pipeline steps.
- `tests/` exercises the library on concrete values.

## Modules of the library

| Module | Purpose |
|---|---|
| `toon` | TOON list rendering with validation before rendering |
| `escape` | cell escaping and header token sanitizing |
| `kv` | key-value blocks and JSON string escaping |
| `hints`, `recovery` | `help[N]:` and `recovery[N]:` blocks |
| `truncate` | truncation on character boundaries with a signal suffix |
| `empty` | definitive empty states |
| `error`, `execution` | error codes, classes, renderings, conversions |
| `resilience`, `retry_after` | back-off, delays, `Retry-After`, idempotency keys |
| `status`, `pipeline`, `idempotency` | status, pipeline and partial-success blocks |
| `response`, `mcp`, `audience` | the response builder and MCP result shape |
