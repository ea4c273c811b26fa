# paf_desktop

The decisions behind the Planet A Foods desktop hub, verified with
[Verus](https://github.com/verus-lang/verus). The hub is one window with a strip of tabs, each of
which shows one of the team's web apps. Outside services open in the system browser, and so does
every sign-in, which comes back over a loopback address or a deep link.

- `src/` is the library. It takes plain values and hands back the effects to perform, in order.
  - `tabs` keeps the tab list: opening, selecting, closing, cycling, titles.
  - `showing` proves that only the active tab shows.
  - `navigation` decides where a link leads.
  - `auth` starts a sign-in in the browser and redeems what comes back.
  - `loopback` reads the browser's request and writes the reply.
  - `menu` describes the menu bar and carries its items out.
  - `hosts` knows the hub's own hosts and the outside services.
  - `weburl` holds the parts of a URL; parsing and encoding are left to the `url` crate.
  - `effect`, `lists` and `text` are what the others are written in.
- `app/` is the Tauri shell: it owns the window, the webviews and the loopback socket, tells the
  library what happened and performs the effects.
- `tests/` runs the library.

Contracts speak of models: `HubModel` for the tab list, `EffectModel` for effects, `UrlModel` for
URLs. Each operation is given by one spec function on those models (`selecting`, `closing`,
`navigating`, `redeeming`, ...), and the public proof functions named `law_..` state what holds
across operations.
