# mini_pi

The view logic of Mini Pi, a desktop chat client for the `pi` coding agent,
written in Verus: what each panel shows and what each user action changes,
stated in `requires` / `ensures` contracts and proved.

- `src/` is the verified library, one module per panel or concern: the chat
  window and its send / edit / fork flow, the thread list with paging and
  search, settings (models, providers, thinking levels), the skills panel,
  the extension and skill installers, the user panel, onboarding, workspaces,
  message layout (tool call / result pairing), and shared text, JSON and path
  helpers. Calls into `serde_json`, `url`, `percent-encoding` and `base64`
  stand behind small trusted wrappers whose contracts are documented where
  they are declared.
- `tests/` runs the library on concrete values.
- `app/` holds what cannot be verified: HTTP requests, archive extraction,
  the `bun` installer process, file access, and the status-bar figures that
  use floating point. It converts between the library's types and
  `serde_json` values.
