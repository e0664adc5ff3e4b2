# anima_linux

The verified core of a manager for animated desktop companions on Linux.

- `src/env_detect.rs`: the display environment (X11, XWayland, Wayland) from
  the session variables, GNOME detection, and the always-on-top keybinding
  read from and written to `gsettings`.
- `src/text.rs`: character classes, trimming and search on strings.
- `src/spawns.rs`: the registry of running windows and their spawn ids.
- `src/startup.rs`: which stored instances are opened at start-up.
- `src/store.rs`: what is read of stored instances and animations.
- `src/instance_list.rs`: the rows and labels of the instance list.
- `src/panel.rs`: what the control panel edits and what applying does.
- `app/`: the executable, which reads the environment, runs `gsettings`
  and reports what the library decided.
