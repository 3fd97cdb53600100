# minutes_app

The decisions behind the Minutes desktop application, written in Verus: when a
call is on and in which application, when its end stops the recording, how the
native capture helper is watched, and what the tray, the menus, the windows, the
calendar and the updater do next.

- `src/` is the verified library. It reads no file, clock, process list or
  window: what was observed comes in as plain values, and what has to be done
  goes out as plain values. Times are nanoseconds on one monotonic clock.
- `app/` is the application around it. It runs the commands, waits, draws and
  sends, and asks the library what comes next.
- `tests/` runs the library from outside.

The library trusts three outside functions: `String::push` and
`str::to_lowercase` of the standard library, and `serde_json`'s reading of the
helper's messages. Everything else it states is proved.

| Modules | Subject |
|---|---|
| `text`, `processes`, `families` | text, the process list, process families |
| `native_apps`, `any_mic_app`, `browsers`, `browser_scan`, `meeting_urls`, `mic_check` | where a call may be found |
| `config`, `deadlines`, `detector`, `countdown`, `poll` | the call detector and the end of a call |
| `microphone`, `helper_messages`, `helper_log`, `capture` | the native capture helper |
| `tray`, `tray_menu`, `menu_bar`, `windows`, `notifications`, `updates`, `calendar`, `meeting_prompts`, `startup`, `watcher` | the shell |
