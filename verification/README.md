# gamescope-idle

Controller-aware idle blanking for Steam Gaming Mode: the screen turns black when
nobody has used a keyboard or a controller for a while, and never in the middle of
a game. Written in Rust, with its decisions verified by
[Verus](https://github.com/verus-lang/verus).

```
ACTIVE --(no input for idle_timeout, and not inhibited)--> DIM --(dim_warning)--> BLACK
```

Any keyboard or controller input, the wake signal or `wake` returns to ACTIVE; the
blank signal or `blank` goes straight to BLACK. While an idle inhibitor is held, the
timer never leads to BLACK: it starts a full idle period anew, and a dim warning that
has begun is called off.

## Layout

- `src/` is the library: everything that is decided, as functions on plain values.
  Each function states in its contract what it returns or changes, and Verus proves
  it. Properties that span several functions, such as that the screen always shows
  the state of the daemon, or that a resting controller never keeps it awake, are
  public proof functions whose names begin with `law_`.
- `app/` is the program around it: arguments, devices, sockets, buses and displays.
- `tests/` runs the library on concrete values.

Opacities are integers in the library: an alpha byte, and whether anything is to be
shown at all. The program converts them from the fractions in the settings file.

One function of the library is trusted rather than proved: the one that asks the
`directories` crate for the user's configuration directory (`src/config.rs`).

## Settings

Optional, in `~/.config/gamescope-idle/config.toml`:

| Key | Default | Meaning |
|-----|---------|---------|
| `idle_timeout` | `300` | seconds of no input before blanking begins |
| `dim_warning` | `30` | seconds dimmed as a warning before full black (`0` = straight to black) |
| `dim_alpha` | `0.5` | opacity of the dim warning |
| `cec` | `"auto"` | `auto` / `on` / `off`: HDMI-CEC TV standby |
| `cec_device` | `"/dev/cec0"` | CEC adapter to use |
| `ignore_devices` | `[]` | input event nodes to ignore |
| `watch_hidraw` | `true` | watch known controllers in the Steam launcher |
