# QD2

QD2 shows the displays of QEMU virtual machines that are exported over D-Bus (`-display dbus`).

- `qd2 list` lists the machines on the session bus and on libvirt's private sockets.
- `qd2 inspect` shows a machine, its consoles and its helper objects.
- `qd2 doctor` checks the host and a machine for common problems.
- `qd2 connect` opens a GTK4 window for a console, with keyboard, mouse, clipboard and sound.

## Layout

`src/` is the logic, verified with Verus. It neither reads nor writes anything: it takes what came
in and says what is to be done.

- `text`, `error`: strings, and failures with their causes.
- `cli`, `report`, `diagnostics`: the command line, what is printed, and the checks of `doctor`.
- `qemu`: finding, choosing and inspecting machines.
- `viewer`: pixels, frames and shared buffers; keyboard, mouse, cursor and hotkeys; clipboards;
  sound; the session with a guest, reconnecting, and the window.

`tests/` runs the library on concrete values. `app/` is the program around it: D-Bus, GTK, sound
programs, threads, and what is computed in floating point.
