# sony-headphones-tray

Control of the sound profile of Sony Bluetooth headphones from the system tray,
with its rules verified by Verus.

- `src/` is the library. It decides and computes on plain values, and Verus
  proves the contract of each function, but for four that call the standard
  library or `zbus` and are taken on trust: three in `platform`, and the reading
  of a message body in `signal`.
  - `profile`: the sound profiles and their packets.
  - `address`, `devices`: Bluetooth addresses, and what the Bluetooth tools print.
  - `session`: the steps of a transmission, and its repetition.
  - `tray`, `menu`: the state of the tray, what changes it, and what it shows.
  - `signal`, `monitor`: what the Bluetooth service signals, and listening to it.
  - `config`, `startup`, `command`: configuration files, the start of the
    program, and the programs that it runs.
  - `text`, `text_lemmas`: splitting, trimming and joining text, and facts about
    them.
  - `platform`: what is taken from the standard library.
- `app/` is the program around it: processes, files, the socket, the bus and the
  tray widget.
- `tests/` runs the library on concrete values.

Configuration is kept in `$XDG_CONFIG_HOME/sony-xm4-tray/`, or in
`~/.config/sony-xm4-tray/`: the files `mac`, `profile` and `autoapply`.
The variable `XM4_MAC` and the option `--mac` set the address of the device.
