# screeny_core

The core of a privacy-first screen archiver: it captures the screen on an
interval, keeps the images in a local archive, optionally has a vision model
read and describe them, and delivers them by email or Telegram.

`src/` is the library, written in Verus and verified: the configuration
rules, the lenient parser for model output, the blank-frame check and image
encoding, the capture schedule, per-sink batching and the retry policy,
secret storage, the text and attachments each channel sends, chat discovery,
the full-text query, and when a failure raises a notification. Calls into
`image`, `serde_json`, `base64` and `lettre` sit behind small trusted wrappers whose
contracts are stated next to them.

`app/` is the ordinary Rust around it: the config file, the OS keychain,
SQLite, HTTP and SMTP, screen capture and the async engine that performs
what the library decides.

`tests/` exercises the library from outside.
