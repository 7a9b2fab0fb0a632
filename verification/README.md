# silverdeck

The logic of a gamepad-driven console shell for a living-room Linux PC and of
its graphical installer, written in Verus: every function in `src/` carries a
contract that the verifier proves.

## Layout

- `src/` — the verified library.
  - `games`, `desktop`, `heroic`, `steam`, `paths`, `json`: the game library —
    the sources (desktop entries, Heroic, Steam), how their files are read
    into games, and the library order (case-insensitive title, then source
    priority, one game per id).
  - `launch`: turning a game into a command line, gamescope wrapping and
    session tracking.
  - `store`, `store_view`: the curated Flathub catalogue, installed apps,
    install progress read from `flatpak` output, and the Store tab.
  - `system`, `settings`: Wi-Fi, volume, power and update commands and
    their output, and the Settings tab.
  - `input`, `osk`, `library`, `shell`: navigation events and auto-repeat,
    the on-screen keyboard, the Library tab and the shell that routes events
    between tabs and modals.
  - `installer`, `install_ui`: the install engine's protocol and the
    installer's screens.
  - `text`, `order`: string and ordering helpers with their specifications.
- `tests/` — tests of the library on concrete values.
- `app/` — the program around the library: processes, files, the network,
  the gamepad and the main loops. It hands the library plain values and acts
  on what comes back.

Each tab, modal and screen is a state with a `handle_nav` step whose contract
names the next state and the effect the host must carry out; the host runs
the effect and reports the result back as an event.

Verify with `verus` on `src/lib.rs` (see `Cargo.toml` for the outside crates).
