# ob_oraborus

The verified core of the OB Oraborus desktop assistant, a local-first AI
layer for Windows. Every rule that decides what the assistant may do, and
how it reads what it is given, lives in `src/` and is proved with Verus:

- `security` — the five risk classes, when an action is allowed, needs an
  expiring approval or is refused, how approvals resolve (once), terminal
  command classification and path scoping to approved folders;
- `audit` — recursive redaction of credential-like keys;
- `model_router`, `providers` — capability inference from model names,
  provider order with local-only routing, model choice, health statuses,
  reading Ollama replies and streamed lines;
- `db`, `data_analysis`, `documents`, `files`, `research`, `terminal`,
  `voice`, `vision`, `browser`, `plugins`, `automation`, `tray`,
  `windows_control`, `github`, `api_registry`, `secrets`,
  `emotional_context` — the checks, limits and result shapes of each tool;
- `text`, `json`, `error`, `models` — the plain data the rest is stated over.

Calls into outside crates (regular expressions, SHA-256, Base64, URL and
RFC 3339 parsing, Unicode lowercasing) stand behind small trusted wrappers
whose contracts name their results.

`app/` holds the shell around the library: SQLite storage, HTTP clients,
child processes, the filesystem, serialisable copies of the data types, and
the floating-point statistics. `tests/` exercises the library on concrete
values.
