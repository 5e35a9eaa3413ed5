# volcengine_status

A macOS menu-bar monitor for Volcengine Ark **Agent Plan** and **Coding Plan**
usage, driven by the local `arkcli` SSO session. The decision-making core is a
Verus-verified library; the Tauri application around it lives in `app/`.

## Layout

- `src/` — the verified library
  - `text.rs` — character helpers: string equality, substring search, decimal notation
  - `markers.rs` — cutting the login shell's `PATH` out of noisy shell output
  - `std_text.rs` — specified calls into std text routines (lossy UTF-8, lowercase, trim, Debug quoting)
  - `reset.rs` — parsing `reset_at` (through chrono) and the reset countdown text
  - `ark_usage.rs` — `arkcli` failures, auth-expired detection and the banner flags
  - `tray.rs` — the tray title ("A 76%  C 99%") and tray-menu commands
  - `settings.rs` — period selectors, refresh interval floor, launch-at-login sync
  - `billing.rs` — grouping billing line items by model
  - `launch.rs` — the Terminal helpers for login and install
- `tests/` — tests of the library
- `app/` — Tauri wiring, subprocesses, JSON decoding, window geometry and all
  floating-point figures (percentages, amounts)
