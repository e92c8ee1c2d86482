# findout

The FindOut desktop client: a tray-resident popup that sends questions, with
optional clipboard images and a short device context, to the FindOut server.

- `src/` is the verified library. Every function there carries a Verus
  contract: conversation history and search retries (`conversation`), input
  and response checks (`validate`), quota and error messages (`quota`),
  release versions and addresses (`release`), installation records, launcher
  files and update checks (`lifecycle`), the trial device identity
  (`identity`), image normalisation (`imaging`), the backend origin
  (`origin`), popup placement and reset (`popup`), the device context
  (`system`) and the latency log rows (`metrics`). Calls into `sha2`, `hmac`,
  `base64`, `image`, `chrono` and `url` go through small trusted wrappers whose
  contracts are documented where they are declared.
- `app/` is the desktop program around it: the Slint window and tray, the
  global shortcut, clipboard, keychain, HTTP and file system.
- `tests/` exercises the library with the real outside crates linked.
