# chute

The decision logic behind the Chute desktop app's commands, written in Verus
and proved against its contracts.

`src/` (the verified library):

- `text`, `numbers`, `fields`: trimming as `str::trim` does, writing numerals
  as `to_string` does, reading them as `u32`/`i32::from_str` do, and cutting
  text as `str::split` / `str::split_once` do.
- `iso`: `parse_local_iso`, reading `2026-06-15T14:00:00` into its parts, with
  the law that any date-time written with plain numerals reads back as itself.
- `clock`: milliseconds since the Unix epoch.
- `timers`: the registry of countdown timers (start, cancel, list soonest
  first) and the step a waiting timer takes.
- `alert`: the notification script for an elapsed timer.
- `apple`: the AppleScript and `osascript` arguments for reminders, notes and
  calendar events.
- `hotkey`, `links`: checking a capture hotkey and settling its registration;
  the link handed to the system opener.

`app/` holds the Tauri commands, which run windows, processes, the
global-shortcut manager and timer threads around the library.
