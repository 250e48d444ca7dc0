# dsh-launcher

A tray launcher for the dsh web service. It keeps the service running under launchd or systemd,
shows its status in the tray menu, and opens its web interface in a window of its own.

- `src/` is the verified library. It decides where files go, what a service definition says, in
  which order commands are given, what a menu entry does, when the window opens and which
  operation calls which.
- `app/` is the program around it. It carries out what the library asks for and answers. Window
  sizes are floating-point numbers, so it is there that they are checked, scaled and given their
  written form. On Windows it also joins the names of a path, by the rules that paths have there.
- `tests/` runs the library on concrete values.

## How an operation works

An operation is a function from a state and the last answer to the next state and a list of
effects (`src/effect.rs`). The program carries the effects out in order; the answer to the last
one goes into the next step. For each operation there is a spec function of the same
shape, named `..._step`, and the operation's contract says that the two agree. Types that occur in both are written once,
over the kind of text, path and list that they hold: `Effect` holds strings and byte vectors,
`EffectView` sequences.

Many effects name an operation of the library. `calls` runs such operations on top of each other
as one stack, so that only the other effects are left for the program. `call_laws` states what
holds through whole runs, whatever the program answers: every definition that is written reads
back with the switches that were asked for, and no operation calls itself.

## Modules

| Module | Contents |
|---|---|
| `text`, `path`, `native` | text, slash-separated paths, conversions between bytes and text |
| `effect` | effects and answers |
| `locations` | directories and files on each platform |
| `commands` | log lines, logged commands, what `date` and `id` tell |
| `search`, `programs` | login shells, search path, environment, programs, command line |
| `plist`, `definition` | the launchd property list; what both definitions have in common |
| `macos_service`, `linux_service` | the operations on the service |
| `version` | the order of version names |
| `calls` | operations that call each other |
| `window`, `tray`, `launcher` | the window, the menu and status line, the launcher's coming up |
| `*_laws` | what holds across several steps or operations |

Paths are bytes, since a path need not be text. Times are nanoseconds since any fixed moment.

Beside `app/` the program needs its icons and the configuration of the window system.
