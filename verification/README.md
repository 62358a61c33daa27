# yulink

YuLink logs a Windows PC into a campus network's web portal automatically:
it watches connectivity, finds the portal, drives a login page in a hidden
WebView with an injected script, and confirms that the internet came back.

The crate is split in two:

- `src/` is a Verus library holding the decisions and the parsers, each with
  a contract proved by Verus: the scheduler's connectivity watch, full check
  and retry backoff (`scheduler`), the timing of one login session (`auth`),
  the page's reports (`bridge`), plain-HTTP parsing and redirects
  (`network`), the startup entry's self-healing (`autostart`), version
  comparison and the update sources (`update`), the settings rules
  (`commands`, `store`, `state`), the tray's rules (`tray`), the log
  file's format and rotation (`logger`), the stand-in portal (`mock`), the
  script template (`inject`), start-up switches (`startup`) and the
  proof-of-concept harness (`poc`). Text handling shared by all of them is
  in `text`. Laws that span several functions are public proof functions
  named `law_*`.
- `app/` is the Tauri program around it: windows, tray, registry, WinHTTP,
  DPAPI, sockets, threads and the clock. It performs what the library
  decides and holds what needs floating point (the SMS code's validity in
  hours, the tray icon's status dot).

`tests/` exercises the library with the real outside crates linked.
