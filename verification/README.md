# penswitcher

The logic of PenSwitcher, a Windows UI-automation inspector that binds global
hotkeys to UI elements, written in Verus and proved against its contracts.

## Layout

- `src/` — the verified library.
  - `node_path.rs` — node ids (`root`, `root/2`, `root/2/0`, …): building,
    parent and depth, and the child-index walk that resolves an id again.
  - `hotkeys.rs` — key names, hotkey strings (`Ctrl+Shift+K`, `Ctrl+1+2`),
    the chord listener fed by key events, and matching chords against the
    registered hotkeys.
  - `store.rs` — the shortcut list: membership, hotkey assignment with the
    uniqueness rule, removal, and rebuilding the hotkey registry.
  - `uia.rs` — tree nodes and the details pane built from element
    properties, node-id resolution, the path from the window root to a picked
    element.
  - `activation.rs` — how a shortcut finds and activates its element: the
    places to look (node path, search, ancestors) and the activation modes,
    driven one outcome at a time.
  - `windows_api.rs` — which windows are listed, process names from image
    paths, de-duplication and ordering of the window list.
  - `overlay.rs` — the highlight frame around an element.
  - `utils.rs`, `text.rs`, `models.rs` — property rendering, text helpers and
    the shared data types.
- `tests/` — tests on concrete values.
- `app/` — the Tauri desktop shell: commands, Win32 and UI Automation calls,
  the keyboard and mouse hooks, logging and the shortcut file.
