# agenda

The task model and the page logic of the Agenda task manager, written in
Verus: every function in `src/` carries a contract that Verus proves.

## Layout

- `src/model.rs`, `src/edits.rs`: tasks, projects, tags, events; the
  lifecycle predicates (active, overdue, archived, ...) and the edits a user
  makes to one task.
- `src/lists.rs`, `src/order.rs`: the smart lists (Inbox, Today, Plans,
  Someday, Logbook, Trash) and the stable board orderings.
- `src/rows.rs`: the rows a list shows under a grouping (flat, by project,
  by date), kanban columns, and the rows of the logbook, project, recurring
  and calendar-day pages.
- `src/workspace.rs`, `src/views.rs`, `src/keys.rs`, `src/startup.rs`,
  `src/navigation.rs`: the application state, navigation (sidebar rows,
  task row targets, the task page's inputs and menu), saving through the
  storage link, menu actions, keyboard handling and start-up.
- `src/capture.rs`, `src/quick.rs`: quick entry (a task typed in one line,
  with `@project` mentions and day words) and quick search.
- `src/menus.rs`, `src/recur_editor.rs`: property dropdowns, property chips,
  task rows, the display options popover and the recurrence editor.
- `src/dates.rs`, `src/format.rs`, `src/recurrence.rs`, `src/calendar.rs`:
  day keys, Russian date captions, the next occurrence of a repeating task,
  and the calendar's day and week views.
- `src/stats.rs`, `src/heatmap.rs`: completion statistics and the
  completion heatmap.
- `src/engine.rs`, `src/doc.rs`: the vocabulary shared with the Engine task
  store and the plain text of rich notes.
- `src/mapping.rs`: Engine task objects held as plain values; how a task is
  read from one and written into one (changed fields only, everything the
  task does not carry kept), and the law that a written task reads back as
  itself.
- `src/store.rs`: storage messages and the store's decisions: when a save is
  refused (a conflict or a taken id), what follows a failed save of a next
  occurrence (read back, roll back), and what a load keeps and in what order.
- `src/seeds.rs`: the demo data.
- `src/source_size.rs`: the rule that keeps source files short.
- `src/laws.rs`: properties that span several operations.
- `app/main.rs`: a command-line host that shows a page of the agenda, and
  the `check-source-size` command.
- `app/engine.rs`: the Engine's RPC transport (`ureq`), the conversion
  between its JSON objects and the library's `EngineTask`, and the storage
  worker loop that runs the commands the agenda queues.
- `tests/`: tests on concrete values.

Calls into `chrono` (dates, the clock), `uuid` (task ids) and a few
functions of the standard library (lower case, letters and digits, string
appends) go through small trusted wrappers in `src/dates.rs`, `src/ids.rs`
and `src/text.rs`, whose doc comments say what is assumed of them.
