# mcml_game

The game core of a Minecraft launcher, written in Verus: instance registry and
groups, game and loader launch arguments, class paths, file checks, run logs, mod
and resource pack descriptions, worlds, structures, servers, LAN announcements and
the launcher's folders. Every function in `src/` has a contract that Verus proves.

## Layout

- `src/` — the verified library. Files on disk, hashes of files, archives and NBT
  files are not read here: what the logic needs of them (whether a file exists, its
  checksum, the entries of a description file, the fields of a level file) comes in
  as arguments, and the functions return what is to be written, downloaded, removed
  or run.
- `src/` calls outside crates only behind trusted items, each with a doc comment
  saying what is believed of it: `regex` (compiling patterns, capture groups),
  `url` (the path of an address), `serde_json` and `toml` (parsing description
  texts), and from std `String::push`, `str::to_lowercase` and `Path::file_stem`.
- `app/` — the ordinary Rust around the library: reading and writing files, the
  option and game-time files, mod archives (`zip`), running commands and processes,
  the LAN listener (sockets, threads, `if-addrs`) and random ids (`uuid`).
- `tests/` — tests on concrete values, among them those of the original crate.

## Left out

- The launch runner itself (login, download, process start and its output
  threads), the folder watcher, event dispatch to closures, saving and reading the
  NBT of worlds and structures, and fetching the Nide8 and authlib agents' records:
  these are I/O and threads. What they decide is in `src/`: the launch checks and
  plans, `EventHandlers::receivers`, the data pack change plans, and the agents'
  download items and readiness steps (`fresh_agent_step`, `cached_agent_step`), and
  the order of a launch's steps (`launch_next`).
- Formatting a game time with fractional seconds uses floating point and stays in
  `app/`.
- The crates the original takes from its own workspace (`mcml_base`, `mcml_net`,
  `mcml_nbt`, `mcml_config`, `mcml_auth`, the downloader and the Java manager) are
  not here; where the logic needs their results, it takes them as arguments.
