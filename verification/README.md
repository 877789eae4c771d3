# incular_widgets

Retained widget descriptors and the controllers behind them, verified with
Verus.

- `src/` is the verified library. Each public function states what it
  returns or changes in `requires`/`ensures`; `src/laws.rs` states the
  properties that relate several operations (a read gives back a write,
  moving an item back restores the order, a dispatch asks the newest handler
  first, a marker reads back as the listener that wrote it, ...).
  - `menu`: platform menu descriptions, their flattening into a
    callback-free snapshot with path identities, and the controller that
    installs a snapshot through a platform delegate and routes its events;
    the requests sent to delegates and the callbacks run are kept as ghost
    logs that the contracts speak of.
  - `tooltip`: the raw tooltip state machine (hover, focus, touch windows,
    pending transitions, revision counting, trigger-callback runs) and the
    per-thread registry that hides hovered siblings and "dismisses all";
    the layers a tooltip builds for its trigger mode.
  - `sliver_lists`: reorder order bookkeeping (identities never repeat),
    drops and drag sources, and the animated list's insertion/removal
    transitions.
  - `back_dispatch`: the retained back-button dispatcher tree (children
    first, newest handler first, then pop guards and the navigation
    fallback), pop scopes and nested-navigator handlers.
  - `page_storage`: keyed JSON page storage.
  - `recursion`: the frame-pipeline recursion guard and its report.
  - `reorder_marker`: the key a drag-start listener leaves for its sliver.
  - `reorder_listener`: replacing the first drag-start listener of a row's
    widget tree by the sliver's wrapper.
  - `slivers`: sliver descriptors, header scroll policies and the list
    body that lowers onto a row or column.
  - `descriptors`, `widget`: small descriptors and the widget node tree they
    lower to.
  - `callback`, `text`, `time`: closure handles, string building and time.
- `tests/` runs the library on concrete values.
- `app/` holds what the verifier cannot: process-wide counters, per-thread
  registries, controllers shared through `Rc<RefCell<..>>`, environment
  variables and crash-report files.
