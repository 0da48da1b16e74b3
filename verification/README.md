# magnet_player

A media player that plays while it downloads: magnet links, YouTube videos and local files, each
served to the player window by a small HTTP server on this machine.

- `src/` is the library, written in Verus: every decision of the player, with its contract and its
  proof. `range` and `reply` say which bytes answer a request and under which headers; `torrent`,
  `youtube` and `local_file` are the backends; `manager` hands links to backends and numbers their
  tasks; `player` and `downloader` are the two windows; `magnet`, `bilibili`, `media`, `meter`,
  `size`, `number`, `text` and `ids` are what these are made of. The functions named `law_...`
  state what holds across several of them.
- `tests/` runs the library.
- `app/` is ordinary Rust around it: sockets, files, the torrent session and the windows. The
  windows and the YouTube lookup also need `eframe`, `egui_video`, `rfd`, `dioxus` and
  `rusty_ytdl`, which `Cargo.toml` leaves out.

Progress and speed are kept as whole numbers in the library; `app/figures.rs` turns them into
percentages and bytes per second.
