# Dalhin

A Wine profile manager for Linux: it creates and registers Wine prefixes
("profiles"), runs installers and programs inside them, finds the programs
an installer left behind, keeps a library of them with their real icons,
and checks that the system has what DXVK and Vulkan need.

The logic is a library verified with Verus; the program around it draws the
interface and does the input and output.

## Layout

- `src/` — the verified library (`dalhin`):
  - `state.rs`: the application state, the events and the commands; `update`
    is proved to follow the `transition` relation for every event.
  - `state_laws.rs`, `registry_laws.rs`: properties proved across events and
    across registry operations.
  - `prefix.rs`: the registry of profiles and its operations, name checks,
    detection of loose prefixes and of their architecture.
  - `programs.rs`: naming programs after their folders, recognising
    installer leftovers, choosing the programs found in a prefix.
  - `lnk.rs`: reading the target of a Windows shortcut (`.lnk`).
  - `icon.rs`, `bytes.rs`: finding the main icon inside a Windows executable
    (PE resources) and rebuilding it as a standalone `.ico`.
  - `system.rs`: the system report and the commands that complete it.
  - `i18n.rs`: the interface languages and every text shown.
  - `listing.rs`, `style.rs`, `text.rs`: what the lists show, avatar colours,
    and character-sequence helpers.
- `tests/` — tests of the library on concrete values.
- `app/` — the `iced` program: storage of the registry as JSON, processes,
  file pickers, walks over the disk, and the interface.
