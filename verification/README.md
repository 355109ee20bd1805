# dtrwm

A tiling window manager for the River compositor.

- `src/` is the library: how windows are laid out, what each event of the compositor does to the
  state of the manager, and which requests are sent in answer. Verus proves each function against
  its contract, but for one: `read_utf8` in `keyboard` calls the standard library, and its contract
  is taken on trust.
  - `text`, `color`, `action`, `config`: reading the configuration.
  - `layout`: rectangles for windows.
  - `state`, `event`, `keyboard`, `dialog`, `bindings`: the state, and what events do to it.
  - `perform`, `drag`, `manage`: the answer to a request to manage the windows.
  - `render`: the answer to a request to render them.
  - `laws`, `manage_laws`, `render_laws`: what holds of the manager as a whole.
- `tests/` runs the library.
- `app/` is the program: it speaks to the compositor, reads files, starts commands, and hands plain
  values to the library. It is built with the protocol descriptions of River and of the xdg shell
  under `protocols/`.

Windows, outputs and seats are known to the library by numbers. A function whose name begins with
`can_` says whether the numbers that another one computes fit in their types.
