# breeze_shell

The decision-making core of the Breeze browser shell for Windows, written in
Verus: every function in `src/` carries a `requires`/`ensures` contract that
Verus proves, and the properties that span several calls are stated as public
proof functions (`lemma_*`).

## Layout

- `src/` — the verified library.
  - Navigation: `navigation_transaction` (generations, presentation deadlines,
    bounded retries), `navigation_response` (fetch answers and incident lines),
    `tab_navigation` (session history), `script_navigation` (bounded script
    redirect chains), `tab_router`, `presentation` (installing renderer
    presentations, repaint plans), `document_state` (cookie and storage batches).
  - Accessibility: `accessibility::{node_store, tree_check, document, chrome,
    actions}` — transactional application of renderer trees with stable
    platform identities, chrome nodes and request routing.
  - Window and painting: `geometry`, `chrome_layout`, `chrome_look`,
    `window_placement`, `panel_layout`, `surface_paint`, `paint_index`,
    `native_controls`, `page_controls`, `fullscreen`, `color_scheme`.
  - Measurement and reports: `performance`, `performance_report`,
    `incident_log`, `benchmark`, `early_scroll`, `filmstrip`, `video`,
    `runtime_timeline`, `diagnostics`, `capture`, `stats`.
  - Launch options: `options` (command-line grammar of interactive and hidden
    benchmark launches).
  - `text` — characters, decimal formatting, JSON string literals, UTF-16.
  - `float_decimal` — the digits a quotient or a duration prints with once it
    has been held in a binary64 float, computed exactly in integers.
- `tests/` — ordinary Rust tests of the library's behaviour.
- `app/` — the command-line entry and what cannot be verified: registry and
  file access, clocks, panic payloads, AccessKit conversion, and the
  floating-point conversions between CSS and device pixels.

Times are microseconds and geometry is in device pixels throughout the
library; floating-point values stay in `app/`, and where a report prints a
float, `float_decimal` reproduces its binary64 rounding with integers.
