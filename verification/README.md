# ion_sense

The verified core of Ion Sense, a tray utility that turns battery,
temperature, download, email and Discord conditions into HUD alerts.

- `src/` is the library, written in Verus. Every function carries a
  contract, and the properties the application relies on are stated as
  `law_*` proof functions next to the code they speak of:
  - `event.rs` — the alert contract and the developer sample alerts;
  - `dispatcher.rs` — the duplicate-suppression filter (thirty-second window,
    bounded cache) in front of the bounded tokio queue, and the pending count;
  - `detectors/` — the decisions of each detector: low-battery and
    overheating latches, the NVIDIA probe back-off, finished-download
    recognition and file stability, the IMAP UID cursor and alert text, and
    the Discord message filter with its bounded replay memory;
  - `settings.rs` — defaults and sanitising of the settings without floating
    point;
  - `credentials.rs` — OS-vault access through `keyring`, and the checks and
    rollbacks of a settings save;
  - `window.rs` — the generation-numbered lifecycle of the settings popover
    and the HUD's delivery bookkeeping;
  - `text.rs`, `paths.rs` — string and path helpers.
- `tests/` runs the library on concrete values.
- `app/` is the Tauri application around the library: windows, tray,
  commands, detector threads, network and file I/O, floating-point sensor
  readings, and the serde forms of the library's types.
