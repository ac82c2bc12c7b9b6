# yood

Yood is a minimal desktop front end for YouTube (Brave in app mode by
default, an embedded WebKit view on request) with a built-in downloader
driven by yt-dlp and FFmpeg.

- `src/` is the library, written in Verus: settings and their migration,
  the download queue and its state machine, yt-dlp argument building and
  output parsing, URL and path policy, file-name sanitising, log redaction,
  the ad-filter engine around `adblock`, Brave profile seeding, deep links
  and the companion extension check. Every function with a body that Verus
  checks carries a contract and is proved; calls into `url`, `regex`, `serde_json`, `adblock`, `chrono`,
  `uuid` and `directories` go through small trusted wrappers whose
  contracts are documented beside them.
- `tests/` exercises the library on concrete values.
- `app/` is the Tauri program around it: windows, commands, processes,
  files and the network. It hands the library plain values and acts on
  what comes back.
