# openagent_plugins

The logic of the openagent CLI plugins (TokenHub model settings, credential
renewal and sync, OpenViking memory, telemetry), verified with Verus.

- `src/` — the verified library:
  - `calendar` — Gregorian calendar arithmetic and the `YYYYMMDDTHHMMSSZ` timestamp;
  - `digest` — SHA-256 and HMAC-SHA256 (through the `sha2` and `hmac` crates);
  - `hexcode`, `json`, `text` — hexadecimal, JSON string escaping, character helpers;
  - `tokenhub` — SDK-HMAC-SHA256 request signing, headers, reply handling, model limits;
  - `settings` — injection of provider and credential blocks into `settings.json`, and the
    credential reads and fetch that precede it, as a state machine;
  - `events` — the events reported to the host;
  - `renew` — renewal of model and embedding configurations after an authentication error, as a state machine;
  - `envsync` — the credential-sync job as a state machine;
  - `openviking` — OpenViking endpoints, bodies, replies, token counting, hits;
  - `session_flow` — the OpenViking session lookup and the token count that commits, as state machines;
  - `telemetry` — lifecycle log messages.
- `app/` — the plugin exports and host calls (keyring, HTTP, environment, logs).
- `tests/` — tests of the library on concrete values.
