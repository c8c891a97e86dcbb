# echotrans

The verified core of EchoTrans, a desktop helper that translates the selected
text when Ctrl+C is pressed three times in a row, and a screen region when the
screenshot hotkey is pressed.

- `src/` — the library, verified with Verus:
  - `hotkey.rs`: hotkey strings ("Alt+W"), the keyboard watcher that turns key
    events into the two triggers, and the text handed to a translation;
  - `config.rs`: the settings, the rules a configuration must meet before it is
    saved, and the save and load protocols for the configuration file
    (temporary file, read-back check, backup, restore);
  - `mt.rs`: the machine-translation channel (target language, line-by-line
    sending and restoring of the layout, reply checks, token cache);
  - `translator.rs`: the AI channel (endpoint address, streamed reply decoder);
  - `snip.rs`: screenshot selection, cropping, scaling, PNG and base64;
  - `json.rs`: reading a string or an array length out of JSON text along a
    path of keys and positions;
  - `text.rs`: character helpers (trimming, splitting).
- `tests/` — tests of the library on concrete values.
- `app/` — the Tauri application around the library: windows, tray, keyboard
  hook, clipboard, screen capture, files and network.
