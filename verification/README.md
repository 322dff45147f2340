# periph_monitor

A Windows tray application that lists the peripherals of the machine
(Bluetooth and 2.4G receivers, audio devices, mice and keyboards, monitors,
batteries), shows their connection state and battery level, and controls
audio output.

The decisions of the application live in a library whose functions carry
contracts that Verus proves:

- `src/scan.rs` builds the device list from the rows of the PnP entity
  query, the paired Bluetooth devices and the battery query, merging the
  entries of one device (`src/dedup.rs` holds the indexed variant of the
  merge), and applies the user's name filter (`src/filter.rs`, with the
  regex crate behind two trusted wrappers).
- `src/classify.rs` and `src/device_data.rs` group devices and read the
  receiver table; `src/config.rs` holds the settings and their edits;
  `src/tray.rs`, `src/popup.rs` and `src/state.rs` decide the tray's texts,
  menus and actions; `src/bt.rs`, `src/logging.rs`, `src/system.rs`,
  `src/audio.rs` and `src/update.rs` prepare and read the work that the
  program hands to the system.
- `src/text.rs`, `src/fmt.rs`, `src/pairs.rs` and `src/collections.rs`
  are the string, number and collection helpers the rest is proved with.

`app/` is the program around the library: the Tauri shell, the WMI, Windows
Runtime and audio calls, the files, and the floating-point window geometry.
