//! The agenda's state outside rendering: its records, the current route,
//! the open panels and the storage handshake, with every edit the user can
//! make to a task.
use vstd::prelude::*;
use crate::model::{Todo, Project, Area, Tag, Heading, CalEvent, Status, same_todo, todo_eq,
    todo_equal, opt_view};
use crate::store::{Command, Mutation, Reply, Snapshot};
use crate::text::{str_equal, push_str};
use crate::lists::{SortKey, GroupKey};
use crate::edits::{TodoEdit, edited, edit_todo};
use crate::dates::{CivilDate, valid_date, key_text, key_of, local_today, utc_now_rfc3339};
use crate::recurrence::{next_recurrence_text, next_recurrence_date_from};
use crate::ids::new_task_id;
use crate::model::day_dates_cuttable;

verus! {

// ---------------------------------------------------------------------------
// Routes and panels
// ---------------------------------------------------------------------------

pub enum Route {
    Inbox,
    Today,
    Plans,
    Calendar,
    Someday,
    Statistics,
    Recurring,
    Logbook,
    Trash,
    Settings,
    SettingsFuel,
    SettingsEnergy,
    Dev,
    About,
    Project(String),
    Task(String),
}

/// Routes are equal when they are the same page (and the same record).
pub open spec fn route_eq(a: Route, b: Route) -> bool {
    match (a, b) {
        (Route::Project(x), Route::Project(y)) => x@ == y@,
        (Route::Task(x), Route::Task(y)) => x@ == y@,
        (Route::Project(_), _) => false,
        (Route::Task(_), _) => false,
        (_, Route::Project(_)) => false,
        (_, Route::Task(_)) => false,
        _ => a == b,
    }
}

pub fn route_equal(a: &Route, b: &Route) -> (r: bool)
    ensures
        r == route_eq(*a, *b),
{
    match (a, b) {
        (Route::Project(x), Route::Project(y)) => str_equal(x.as_str(), y.as_str()),
        (Route::Task(x), Route::Task(y)) => str_equal(x.as_str(), y.as_str()),
        (Route::Inbox, Route::Inbox) => true,
        (Route::Today, Route::Today) => true,
        (Route::Plans, Route::Plans) => true,
        (Route::Calendar, Route::Calendar) => true,
        (Route::Someday, Route::Someday) => true,
        (Route::Statistics, Route::Statistics) => true,
        (Route::Recurring, Route::Recurring) => true,
        (Route::Logbook, Route::Logbook) => true,
        (Route::Trash, Route::Trash) => true,
        (Route::Settings, Route::Settings) => true,
        (Route::SettingsFuel, Route::SettingsFuel) => true,
        (Route::SettingsEnergy, Route::SettingsEnergy) => true,
        (Route::Dev, Route::Dev) => true,
        (Route::About, Route::About) => true,
        _ => false,
    }
}

impl Route {
    pub fn copy(&self) -> (r: Route)
        ensures
            r == *self,
    {
        match self {
            Route::Inbox => Route::Inbox,
            Route::Today => Route::Today,
            Route::Plans => Route::Plans,
            Route::Calendar => Route::Calendar,
            Route::Someday => Route::Someday,
            Route::Statistics => Route::Statistics,
            Route::Recurring => Route::Recurring,
            Route::Logbook => Route::Logbook,
            Route::Trash => Route::Trash,
            Route::Settings => Route::Settings,
            Route::SettingsFuel => Route::SettingsFuel,
            Route::SettingsEnergy => Route::SettingsEnergy,
            Route::Dev => Route::Dev,
            Route::About => Route::About,
            Route::Project(id) => Route::Project(id.clone()),
            Route::Task(id) => Route::Task(id.clone()),
        }
    }
}

#[derive(Clone, Copy, PartialEq, Eq, Debug, Structural)]
pub enum BoardView {
    List,
    Kanban,
}

/// Display options of a board.
#[derive(Clone, Copy, PartialEq, Eq, Debug, Structural)]
pub struct BoardOpts {
    pub view: BoardView,
    pub sort: SortKey,
    pub group: GroupKey,
}

impl Default for BoardOpts {
    fn default() -> (r: BoardOpts)
        ensures
            r == (BoardOpts { view: BoardView::List, sort: SortKey::Default, group: GroupKey::Flat }),
    {
        BoardOpts { view: BoardView::List, sort: SortKey::Default, group: GroupKey::Flat }
    }
}

pub open spec fn default_board() -> BoardOpts {
    BoardOpts { view: BoardView::List, sort: SortKey::Default, group: GroupKey::Flat }
}

/// Display options per page, by the page's storage key; a page without
/// stored options shows the defaults.
pub struct BoardStore {
    pub entries: Vec<(String, BoardOpts)>,
}

impl BoardStore {
    /// No key is stored twice.
    pub open spec fn wf(&self) -> bool {
        forall|i: int, j: int|
            0 <= i < j < self.entries@.len() ==> #[trigger] self.entries@[i].0@
                != #[trigger] self.entries@[j].0@
    }

    pub open spec fn view(&self) -> Map<Seq<char>, BoardOpts> {
        Map::new(
            |k: Seq<char>| exists|i: int| 0 <= i < self.entries@.len() && #[trigger] self.entries@[i].0@ == k,
            |k: Seq<char>| self.entries@[choose|i: int| 0 <= i < self.entries@.len() && #[trigger] self.entries@[i].0@ == k].1,
        )
    }

    pub fn new() -> (r: BoardStore)
        ensures
            r.wf(),
            r.view() == Map::<Seq<char>, BoardOpts>::empty(),
    {
        let r = BoardStore { entries: Vec::new() };
        proof {
            assert(r.view() =~= Map::<Seq<char>, BoardOpts>::empty());
        }
        r
    }

    fn position(&self, key: &str) -> (r: Option<usize>)
        requires
            self.wf(),
        ensures
            match r {
                Some(i) => i < self.entries@.len() && self.entries@[i as int].0@ == key@,
                None => !self.view().dom().contains(key@),
            },
    {
        let mut i: usize = 0;
        while i < self.entries.len()
            invariant
                i <= self.entries@.len(),
                forall|j: int| 0 <= j < i ==> #[trigger] self.entries@[j].0@ != key@,
            decreases self.entries@.len() - i,
        {
            if str_equal(self.entries[i].0.as_str(), key) {
                return Some(i);
            }
            i = i + 1;
        }
        None
    }

    /// The options stored under a key, or the defaults.
    pub fn get(&self, key: &str) -> (r: BoardOpts)
        requires
            self.wf(),
        ensures
            r == if self.view().dom().contains(key@) {
                self.view()[key@]
            } else {
                default_board()
            },
    {
        match self.position(key) {
            Some(i) => {
                proof {
                    let c = choose|j: int| 0 <= j < self.entries@.len() && #[trigger] self.entries@[j].0@ == key@;
                    assert(c == i as int);
                }
                self.entries[i].1
            },
            None => BoardOpts::default(),
        }
    }

    /// Stores options under a key, replacing what was stored there.
    pub fn set(&mut self, key: String, opts: BoardOpts)
        requires
            old(self).wf(),
        ensures
            final(self).wf(),
            final(self).view() == old(self).view().insert(key@, opts),
    {
        let ghost k = key@;
        match self.position(key.as_str()) {
            Some(i) => {
                self.entries.set(i, (key, opts));
                proof {
                    assert forall|x: Seq<char>| #[trigger] self.view().dom().contains(x) == old(self).view().insert(k, opts).dom().contains(x) by {
                        if old(self).view().dom().contains(x) && x != k {
                            let w = choose|j: int| 0 <= j < old(self).entries@.len() && #[trigger] old(self).entries@[j].0@ == x;
                            assert(self.entries@[w].0@ == x);
                        }
                        if x == k {
                            assert(self.entries@[i as int].0@ == x);
                        }
                        if self.view().dom().contains(x) {
                            let w = choose|j: int| 0 <= j < self.entries@.len() && #[trigger] self.entries@[j].0@ == x;
                            if w != i as int {
                                assert(old(self).entries@[w].0@ == x);
                            }
                        }
                    }
                    assert forall|x: Seq<char>| #[trigger] self.view().dom().contains(x) implies self.view()[x] == old(self).view().insert(k, opts)[x] by {
                        let w = choose|j: int| 0 <= j < self.entries@.len() && #[trigger] self.entries@[j].0@ == x;
                        if x == k {
                            assert(w == i as int);
                        } else {
                            let w0 = choose|j: int| 0 <= j < old(self).entries@.len() && #[trigger] old(self).entries@[j].0@ == x;
                            assert(old(self).entries@[w].0@ == x);
                            assert(w0 == w);
                        }
                    }
                    assert(self.view() =~= old(self).view().insert(k, opts));
                }
            },
            None => {
                self.entries.push((key, opts));
                proof {
                    let n = old(self).entries@.len() as int;
                    assert forall|x: Seq<char>| #[trigger] self.view().dom().contains(x) == old(self).view().insert(k, opts).dom().contains(x) by {
                        if old(self).view().dom().contains(x) {
                            let w = choose|j: int| 0 <= j < old(self).entries@.len() && #[trigger] old(self).entries@[j].0@ == x;
                            assert(self.entries@[w].0@ == x);
                        }
                        if x == k {
                            assert(self.entries@[n].0@ == x);
                        }
                        if self.view().dom().contains(x) {
                            let w = choose|j: int| 0 <= j < self.entries@.len() && #[trigger] self.entries@[j].0@ == x;
                            if w < n {
                                assert(old(self).entries@[w].0@ == x);
                            }
                        }
                    }
                    assert forall|x: Seq<char>| #[trigger] self.view().dom().contains(x) implies self.view()[x] == old(self).view().insert(k, opts)[x] by {
                        let w = choose|j: int| 0 <= j < self.entries@.len() && #[trigger] self.entries@[j].0@ == x;
                        if x == k {
                            assert(w == n);
                        } else {
                            let w0 = choose|j: int| 0 <= j < old(self).entries@.len() && #[trigger] old(self).entries@[j].0@ == x;
                            assert(old(self).entries@[w].0@ == x);
                            assert(w0 == w);
                        }
                    }
                    assert(self.view() =~= old(self).view().insert(k, opts));
                }
            },
        }
    }
}

/// Pages of the settings group: they share the sidebar chrome and one
/// "Назад" exit.
pub open spec fn settings_route(r: Route) -> bool {
    match r {
        Route::Settings | Route::SettingsFuel | Route::SettingsEnergy | Route::About
        | Route::Statistics | Route::Dev => true,
        _ => false,
    }
}

pub fn is_settings_route(r: &Route) -> (b: bool)
    ensures
        b == settings_route(*r),
{
    match r {
        Route::Settings | Route::SettingsFuel | Route::SettingsEnergy | Route::About
        | Route::Statistics | Route::Dev => true,
        _ => false,
    }
}

// ---------------------------------------------------------------------------
// The agenda state
// ---------------------------------------------------------------------------

/// The link to the storage worker.
pub struct StorageLink {
    /// Demo mode: edits stay in memory, no storage worker.
    pub demo: bool,
    /// A storage worker is attached and accepts commands.
    pub connected: bool,
    /// Commands accepted for the worker, in order; the host hands them over.
    pub outbox: Vec<Command>,
    pub ready: bool,
    pub busy: bool,
    pub error: Option<String>,
}

/// The agenda's records.
pub struct Records {
    pub todos: Vec<Todo>,
    pub projects: Vec<Project>,
    pub areas: Vec<Area>,
    pub tags: Vec<Tag>,
    pub headings: Vec<Heading>,
    pub events: Vec<CalEvent>,
    /// Bumped (wrapping) on every change of tasks or projects.
    pub model_rev: u64,
}

/// The page shown and the panels open on it.
pub struct Panels {
    pub route: Route,
    pub back_route: Route,
    pub share_open: bool,
    pub options_open: bool,
    pub options_for: Option<String>,
    pub more_open: bool,
    pub menu_open: bool,
    pub dropdown_open: bool,
    pub delete_blocked: bool,
    /// The recurrence editor of the task page is open.
    pub recur_open: bool,
    /// The sidebar is shown (it slides in and out).
    pub sidebar_shown: bool,
    /// Display options of the pages.
    pub boards: BoardStore,
    /// The task whose title and notes inputs are bound.
    pub input_task: Option<String>,
}

/// Quick entry and recurrence editor state.
pub struct Entry {
    pub open: bool,
    pub billable: bool,
    pub project: Option<String>,
    pub date: Option<String>,
    pub date_touched: bool,
    pub significance: Option<u8>,
    pub recur_freq: u8,
    pub recur_type: u8,
    /// Repeat every this many periods.
    pub recur_interval: u32,
    /// ISO weekdays a weekly repeat falls on.
    pub recur_days: Vec<u8>,
    /// The quick entry's menu is open.
    pub menu_open: bool,
    /// The quick entry's title input has the focus.
    pub focused: bool,
}

/// Quick search state.
pub struct Search {
    pub open: bool,
    pub query: String,
    pub selected: usize,
    /// The query input has the focus.
    pub focused: bool,
}

pub struct Agenda {
    pub link: StorageLink,
    pub records: Records,
    pub panels: Panels,
    pub entry: Entry,
    pub search: Search,
}

pub open spec fn bump(n: u64) -> u64 {
    if n == u64::MAX { 0 } else { (n + 1) as u64 }
}

pub open spec fn disconnected_text() -> Seq<char> {
    "Соединение с Engine завершено. Перезапустите приложение."@
}

pub open spec fn connect_first_text() -> Seq<char> {
    "Подключитесь к Engine и обновите список."@
}

pub open spec fn service_task_text() -> Seq<char> {
    "Эта служебная задача управляется Agenda автоматически."@
}

/// The model revision after a change.
pub fn next_rev(n: u64) -> (r: u64)
    ensures
        r == bump(n),
{
    if n == u64::MAX {
        0
    } else {
        n + 1
    }
}

fn message(text: &str) -> (r: String)
    ensures
        r@ == text@,
{
    let mut s = String::new();
    push_str(&mut s, text);
    s
}

/// First position holding a task with the given id.
pub open spec fn id_pos_from(ts: Seq<Todo>, id: Seq<char>, i: int) -> Option<int>
    decreases ts.len() - i,
{
    if i < 0 || i >= ts.len() {
        None
    } else if ts[i].id@ == id {
        Some(i)
    } else {
        id_pos_from(ts, id, i + 1)
    }
}

pub open spec fn id_pos(ts: Seq<Todo>, id: Seq<char>) -> Option<int> {
    id_pos_from(ts, id, 0)
}

pub proof fn lemma_id_pos_from(ts: Seq<Todo>, id: Seq<char>, i: int)
    requires
        0 <= i <= ts.len(),
    ensures
        id_pos_from(ts, id, i) matches Some(k) ==> i <= k < ts.len() && ts[k].id@ == id && forall|j: int| i <= j < k ==> ts[j].id@ != id,
        id_pos_from(ts, id, i) is None ==> forall|j: int| i <= j < ts.len() ==> ts[j].id@ != id,
    decreases ts.len() - i,
{
    if i < ts.len() {
        lemma_id_pos_from(ts, id, i + 1);
    }
}

/// Replaces the first task with the same id, or appends.
pub open spec fn upsert(ts: Seq<Todo>, t: Todo) -> Seq<Todo> {
    match id_pos(ts, t.id@) {
        Some(i) => ts.update(i, t),
        None => ts.push(t),
    }
}

/// Position of the first task with this id.
pub fn find_todo(todos: &Vec<Todo>, id: &str) -> (r: Option<usize>)
    ensures
        r matches Some(i) ==> id_pos(todos@, id@) == Some(i as int),
        r is None ==> id_pos(todos@, id@) is None,
{
    let mut i: usize = 0;
    proof {
        lemma_id_pos_from(todos@, id@, 0);
    }
    while i < todos.len()
        invariant
            i <= todos@.len(),
            id_pos(todos@, id@) == id_pos_from(todos@, id@, i as int),
        decreases todos@.len() - i,
    {
        if str_equal(todos[i].id.as_str(), id) {
            return Some(i);
        }
        i = i + 1;
    }
    None
}

/// Whether an edit may be saved now: always in demo mode, otherwise only
/// when storage is loaded and idle.
pub open spec fn gate_open(l: StorageLink) -> bool {
    l.demo || (!l.busy && l.ready)
}

/// A service task (one with a `system_kind`) only accepts a new significance.
pub open spec fn edit_allowed(before: Option<Todo>, todo: Todo) -> bool {
    match before {
        Some(b) => b.system_kind is None || todo_eq(Todo { significance: todo.significance, ..b }, todo),
        None => true,
    }
}

pub open spec fn unchanged_edit(before: Option<Todo>, todo: Todo) -> bool {
    match before {
        Some(b) => todo_eq(b, todo),
        None => false,
    }
}

/// The link after a refused save gate.
pub open spec fn gate_refused(old: StorageLink, new: StorageLink) -> bool {
    &&& new == StorageLink { error: new.error, ..old }
    &&& if !old.demo && !old.busy && old.error is None {
        opt_view(new.error) == Some(connect_first_text())
    } else {
        new.error == old.error
    }
}

/// The link after handing a command to the worker (or failing to).
pub open spec fn sent(old: StorageLink, new: StorageLink, command: Command, ok: bool) -> bool {
    &&& ok == old.connected
    &&& ok ==> new == StorageLink { busy: true, error: None, outbox: new.outbox, ..old }
        && new.outbox@ == old.outbox@.push(command)
    &&& !ok ==> new == StorageLink { ready: false, error: new.error, ..old }
        && opt_view(new.error) == Some(disconnected_text())
}

/// The records after keeping a task locally.
pub open spec fn accepted(old: Records, new: Records, todo: Todo) -> bool {
    &&& new == Records { todos: new.todos, model_rev: bump(old.model_rev), ..old }
    &&& new.todos@ == upsert(old.todos@, todo)
}

/// Only the storage link and the records may differ.
pub open spec fn same_view(old: Agenda, new: Agenda) -> bool {
    &&& new.panels == old.panels
    &&& new.entry == old.entry
    &&& new.search == old.search
}

/// What saving `todo` (replacing `before`) does to the agenda, and returns.
pub open spec fn saved(old: Agenda, new: Agenda, before: Option<Todo>, todo: Todo, r: bool) -> bool {
    &&& same_view(old, new)
    &&& if !gate_open(old.link) {
        !r && gate_refused(old.link, new.link) && new.records == old.records
    } else if unchanged_edit(before, todo) {
        r && new.link == old.link && new.records == old.records
    } else if !edit_allowed(before, todo) {
        !r && new.records == old.records && new.link == StorageLink { error: new.link.error, ..old.link }
            && opt_view(new.link.error) == Some(service_task_text())
    } else if !old.link.demo {
        sent(old.link, new.link, Command::Save(Box::new(Mutation { before, todo, next: None })), r)
            && new.records == old.records
    } else {
        r && accepted(old.records, new.records, todo) && new.link == old.link
    }
}

/// Whether an edit changes nothing, and whether it is allowed.
fn check_edit(before: &Option<Todo>, todo: &Todo) -> (r: (bool, bool))
    ensures
        r.0 == unchanged_edit(*before, *todo),
        r.1 == edit_allowed(*before, *todo),
{
    match before {
        Some(b) => {
            let unchanged = todo_equal(b, todo);
            if b.system_kind.is_some() {
                let mut allowed = b.copy();
                allowed.significance = todo.significance;
                proof {
                    assert(todo_eq(allowed, *todo) == todo_eq(Todo { significance: todo.significance, ..*b }, *todo));
                }
                (unchanged, todo_equal(&allowed, todo))
            } else {
                (unchanged, true)
            }
        },
        None => (false, true),
    }
}

/// What saving a completion (and its next occurrence) does.
pub open spec fn completion_saved(old: Agenda, new: Agenda, before: Todo, todo: Todo, next: Option<Todo>) -> bool {
    &&& same_view(old, new)
    &&& if before.system_kind is Some {
        new.link == old.link && new.records == old.records
    } else if !gate_open(old.link) {
        gate_refused(old.link, new.link) && new.records == old.records
    } else if !old.link.demo {
        (exists|ok: bool| sent(old.link, new.link, Command::Save(Box::new(Mutation { before: Some(before), todo, next })), ok))
            && new.records == old.records
    } else {
        new.link == old.link && exists|mid: Records| accepted(old.records, mid, todo) && match next {
            Some(n) => accepted(mid, new.records, n),
            None => new.records == mid,
        }
    }
}

/// A reload: unless busy, clears readiness and errors and asks for a load.
pub open spec fn reloaded(old: StorageLink, new: StorageLink) -> bool {
    if old.busy {
        new == old
    } else {
        exists|ok: bool| sent(StorageLink { ready: false, error: None, ..old }, new, Command::Load, ok)
    }
}

/// The worker is gone: storage stays unavailable until a restart.
pub open spec fn closed(old: StorageLink, new: StorageLink) -> bool {
    &&& new == StorageLink { connected: false, busy: false, ready: false, error: new.error, ..old }
    &&& opt_view(new.error) == Some(disconnected_text())
}

/// First position holding a project with the given id.
pub open spec fn project_pos_from(ps: Seq<Project>, id: Seq<char>, i: int) -> Option<int>
    decreases ps.len() - i,
{
    if i < 0 || i >= ps.len() {
        None
    } else if ps[i].id@ == id {
        Some(i)
    } else {
        project_pos_from(ps, id, i + 1)
    }
}

pub open spec fn project_pos(ps: Seq<Project>, id: Seq<char>) -> Option<int> {
    project_pos_from(ps, id, 0)
}

pub proof fn lemma_project_pos_from(ps: Seq<Project>, id: Seq<char>, i: int)
    requires
        0 <= i <= ps.len(),
    ensures
        project_pos_from(ps, id, i) matches Some(k) ==> i <= k < ps.len() && ps[k].id@ == id && forall|j: int| i <= j < k ==> ps[j].id@ != id,
        project_pos_from(ps, id, i) is None ==> forall|j: int| i <= j < ps.len() ==> ps[j].id@ != id,
    decreases ps.len() - i,
{
    if i < ps.len() {
        lemma_project_pos_from(ps, id, i + 1);
    }
}

/// Position of the first project with this id.
pub fn find_project(projects: &Vec<Project>, id: &str) -> (r: Option<usize>)
    ensures
        r matches Some(i) ==> project_pos(projects@, id@) == Some(i as int) && i < projects@.len(),
        r is None ==> project_pos(projects@, id@) is None,
{
    let mut i: usize = 0;
    proof {
        lemma_project_pos_from(projects@, id@, 0);
    }
    while i < projects.len()
        invariant
            i <= projects@.len(),
            project_pos(projects@, id@) == project_pos_from(projects@, id@, i as int),
        decreases projects@.len() - i,
    {
        if str_equal(projects[i].id.as_str(), id) {
            return Some(i);
        }
        i = i + 1;
    }
    None
}

/// Replaces the first project with the same id, if there is one.
pub open spec fn replace_project(ps: Seq<Project>, p: Project) -> Seq<Project> {
    match project_pos(ps, p.id@) {
        Some(i) => ps.update(i, p),
        None => ps,
    }
}

/// Changing a project's status (0 active, 1 someday, 2 completed).
pub open spec fn project_status_set(old: Agenda, new: Agenda, id: Seq<char>, status: u8) -> bool {
    &&& same_view(old, new)
    &&& if !gate_open(old.link) {
        gate_refused(old.link, new.link) && new.records == old.records
    } else {
        match project_pos(old.records.projects@, id) {
            None => new.link == old.link && new.records == old.records,
            Some(i) => {
                let p = Project { status, ..old.records.projects@[i] };
                &&& new.records.model_rev == bump(old.records.model_rev)
                &&& if old.link.demo {
                    new.link == old.link
                        && new.records == Records { projects: new.records.projects, model_rev: new.records.model_rev, ..old.records }
                        && new.records.projects@ == old.records.projects@.update(i, p)
                } else {
                    (exists|ok: bool| sent(old.link, new.link, Command::Project(p), ok))
                        && new.records == Records { model_rev: new.records.model_rev, ..old.records }
                }
            },
        }
    }
}

/// A load reply: the records are replaced (the bound task inputs are
/// dropped), or the error is shown.
pub open spec fn load_applied(old: Agenda, new: Agenda, result: Result<Snapshot, String>) -> bool {
    &&& new.entry == old.entry
    &&& new.search == old.search
    &&& new.records.model_rev == bump(old.records.model_rev)
    &&& match result {
        Ok(data) => {
            &&& new.link == StorageLink { busy: false, ready: true, error: None, ..old.link }
            &&& new.records == Records {
                todos: data.todos,
                projects: data.projects,
                areas: data.areas,
                tags: data.tags,
                headings: data.headings,
                model_rev: new.records.model_rev,
                ..old.records
            }
            &&& new.panels == Panels { input_task: None, ..old.panels }
        },
        Err(e) => {
            &&& new.link == StorageLink { busy: false, error: Some(e), ..old.link }
            &&& new.records == Records { model_rev: new.records.model_rev, ..old.records }
            &&& new.panels == old.panels
        },
    }
}

/// A save reply: the saved task (and its next occurrence) are kept, or
/// storage is marked not ready with the error.
pub open spec fn save_applied(old: Agenda, new: Agenda, m: Mutation, result: Result<(), String>) -> bool {
    &&& same_view(old, new)
    &&& match result {
        Err(e) => {
            &&& new.link == StorageLink { busy: false, ready: false, error: Some(e), ..old.link }
            &&& new.records == Records { model_rev: bump(old.records.model_rev), ..old.records }
        },
        Ok(()) => {
            &&& new.link == StorageLink { busy: false, ..old.link }
            &&& exists|mid: Records, mid2: Records| accepted(old.records, mid, m.todo) && match m.next {
                Some(n) => accepted(mid, mid2, n),
                None => mid2 == mid,
            } && new.records == Records { model_rev: bump(mid2.model_rev), ..mid2 }
        },
    }
}

/// A project reply: the stored project is replaced, or the error is shown.
pub open spec fn project_applied(old: Agenda, new: Agenda, result: Result<Project, String>) -> bool {
    &&& same_view(old, new)
    &&& new.records.model_rev == bump(old.records.model_rev)
    &&& match result {
        Ok(p) => {
            &&& new.link == StorageLink { busy: false, ..old.link }
            &&& new.records == Records { projects: new.records.projects, model_rev: new.records.model_rev, ..old.records }
            &&& new.records.projects@ == replace_project(old.records.projects@, p)
        },
        Err(e) => {
            &&& new.link == StorageLink { busy: false, ready: false, error: Some(e), ..old.link }
            &&& new.records == Records { model_rev: new.records.model_rev, ..old.records }
        },
    }
}

/// What a worker reply does to the agenda: storage becomes idle, the reply
/// is applied, and the model revision moves on.
pub open spec fn reply_applied(old: Agenda, new: Agenda, reply: Reply) -> bool {
    match reply {
        Reply::Loaded(result) => load_applied(old, new, result),
        Reply::Saved(m, result) => save_applied(old, new, *m, result),
        Reply::Project(result) => project_applied(old, new, result),
    }
}

/// Moving to another page closes the page's panels; leaving or entering the
/// settings group remembers where "Назад" leads.
pub open spec fn navigated(old: Panels, new: Panels, route: Route) -> bool {
    if route_eq(old.route, route) {
        new == old
    } else {
        new == Panels {
            share_open: false,
            back_route: if settings_route(old.route) != settings_route(route) { old.route } else { old.back_route },
            route,
            options_open: false,
            options_for: None,
            more_open: false,
            menu_open: false,
            dropdown_open: false,
            ..old
        }
    }
}

impl StorageLink {
    /// Hands a command to the storage worker.
    pub fn send(&mut self, command: Command) -> (ok: bool)
        ensures
            sent(*old(self), *final(self), command, ok),
    {
        if self.connected {
            self.outbox.push(command);
            self.busy = true;
            self.error = None;
            true
        } else {
            self.error = Some(message("Соединение с Engine завершено. Перезапустите приложение."));
            self.ready = false;
            false
        }
    }

    /// Whether an edit may be saved now; explains why not when storage is
    /// not ready.
    pub fn can_save(&mut self) -> (r: bool)
        ensures
            r == gate_open(*old(self)),
            r ==> *final(self) == *old(self),
            !r ==> gate_refused(*old(self), *final(self)),
    {
        if self.demo {
            return true;
        }
        if self.busy {
            return false;
        }
        if !self.ready {
            if self.error.is_none() {
                self.error = Some(message("Подключитесь к Engine и обновите список."));
            }
            return false;
        }
        true
    }

    /// Asks the worker for a fresh load (unless a request is in flight).
    pub fn reload(&mut self)
        ensures
            reloaded(*old(self), *final(self)),
    {
        if self.busy {
            return;
        }
        self.ready = false;
        self.error = None;
        let _ = self.send(Command::Load);
    }

    /// The worker went away: storage is gone until the app restarts.
    pub fn close(&mut self)
        ensures
            closed(*old(self), *final(self)),
    {
        self.connected = false;
        self.busy = false;
        self.ready = false;
        self.error = Some(message("Соединение с Engine завершено. Перезапустите приложение."));
    }
}

impl Records {
    /// Keeps a task locally: replaces the task with the same id or appends it.
    pub fn accept_todo(&mut self, todo: Todo)
        ensures
            accepted(*old(self), *final(self), todo),
    {
        match find_todo(&self.todos, todo.id.as_str()) {
            Some(i) => {
                proof {
                    lemma_id_pos_from(self.todos@, todo.id@, 0);
                }
                self.todos.set(i, todo);
            },
            None => {
                self.todos.push(todo);
            },
        }
        self.model_rev = next_rev(self.model_rev);
    }
}

impl Panels {
    /// Opens another page.
    pub fn navigate(&mut self, route: Route)
        ensures
            navigated(*old(self), *final(self), route),
    {
        if !route_equal(&self.route, &route) {
            self.share_open = false;
            if is_settings_route(&self.route) != is_settings_route(&route) {
                self.back_route = self.route.copy();
            }
            self.route = route;
            self.options_open = false;
            self.options_for = None;
            self.more_open = false;
            self.menu_open = false;
            self.dropdown_open = false;
        }
    }
}

impl Agenda {
    /// Saves a task edit: through the storage worker, or locally in demo mode.
    pub fn save_todo(&mut self, before: Option<Todo>, todo: Todo) -> (r: bool)
        ensures
            saved(*old(self), *final(self), before, todo, r),
    {
        if !self.link.can_save() {
            return false;
        }
        let (unchanged, allowed) = check_edit(&before, &todo);
        if unchanged {
            return true;
        }
        if !allowed {
            self.link.error = Some(message("Эта служебная задача управляется Agenda автоматически."));
            return false;
        }
        if !self.link.demo {
            return self.link.send(Command::Save(Box::new(Mutation { before, todo, next: None })));
        }
        self.records.accept_todo(todo);
        true
    }

    /// Saves a completion and the next occurrence it created; service tasks
    /// are never completed this way.
    pub fn save_completion(&mut self, before: Todo, todo: Todo, next: Option<Todo>)
        ensures
            completion_saved(*old(self), *final(self), before, todo, next),
    {
        if before.system_kind.is_some() {
            return;
        }
        if !self.link.can_save() {
            return;
        }
        if !self.link.demo {
            let _ = self.link.send(Command::Save(Box::new(Mutation { before: Some(before), todo, next })));
        } else {
            self.records.accept_todo(todo);
            match next {
                Some(n) => self.records.accept_todo(n),
                None => {},
            }
        }
    }

    /// Sets a project's status, locally in demo mode or through the worker.
    pub fn set_project_status(&mut self, id: &str, status: u8)
        ensures
            project_status_set(*old(self), *final(self), id@, status),
    {
        if !self.link.can_save() {
            return;
        }
        let i = match find_project(&self.records.projects, id) {
            Some(i) => i,
            None => {
                return;
            },
        };
        let mut project = self.records.projects[i].copy();
        project.status = status;
        if self.link.demo {
            self.records.projects.set(i, project);
        } else {
            let _ = self.link.send(Command::Project(project));
        }
        self.records.model_rev = next_rev(self.records.model_rev);
    }

    fn apply_loaded(&mut self, result: Result<Snapshot, String>)
        ensures
            load_applied(*old(self), *final(self), result),
    {
        self.link.busy = false;
        match result {
            Ok(data) => {
                self.records.todos = data.todos;
                self.records.projects = data.projects;
                self.records.areas = data.areas;
                self.records.tags = data.tags;
                self.records.headings = data.headings;
                self.link.ready = true;
                self.link.error = None;
                self.panels.input_task = None;
            },
            Err(e) => {
                self.link.error = Some(e);
            },
        }
        self.records.model_rev = next_rev(self.records.model_rev);
    }

    fn apply_saved(&mut self, m: Mutation, result: Result<(), String>)
        ensures
            save_applied(*old(self), *final(self), m, result),
    {
        self.link.busy = false;
        match result {
            Err(e) => {
                self.link.error = Some(e);
                self.link.ready = false;
            },
            Ok(()) => {
                let ghost gm = m;
                self.records.accept_todo(m.todo);
                let ghost mid = self.records;
                match m.next {
                    Some(n) => self.records.accept_todo(n),
                    None => {},
                }
                let ghost mid2 = self.records;
                proof {
                    assert(accepted(old(self).records, mid, gm.todo));
                }
            },
        }
        self.records.model_rev = next_rev(self.records.model_rev);
    }

    fn apply_project(&mut self, result: Result<Project, String>)
        ensures
            project_applied(*old(self), *final(self), result),
    {
        self.link.busy = false;
        match result {
            Ok(p) => {
                match find_project(&self.records.projects, p.id.as_str()) {
                    Some(i) => {
                        self.records.projects.set(i, p);
                    },
                    None => {},
                }
            },
            Err(e) => {
                self.link.error = Some(e);
                self.link.ready = false;
            },
        }
        self.records.model_rev = next_rev(self.records.model_rev);
    }

    /// Applies the worker's reply to a command.
    pub fn apply_reply(&mut self, reply: Reply)
        ensures
            reply_applied(*old(self), *final(self), reply),
    {
        match reply {
            Reply::Loaded(result) => self.apply_loaded(result),
            Reply::Saved(m, result) => self.apply_saved(*m, result),
            Reply::Project(result) => self.apply_project(result),
        }
    }
}

/// What the clock and the id source gave for one user action.
pub struct Moment {
    pub today: CivilDate,
    /// The current instant, RFC 3339.
    pub now: String,
    /// A fresh id for a task the action may create.
    pub fresh_id: String,
}

/// Reads the clock and draws a fresh id: today is a real day, the instant
/// an RFC 3339 stamp that can be cut to its day, the id a UUID text.
pub fn moment() -> (m: Moment)
    ensures
        valid_date(m.today),
        crate::dates::rfc3339_shaped(m.now@),
        crate::model::date_cuttable(m.now@),
        crate::ids::uuid_shaped(m.fresh_id@),
{
    let m = Moment { today: local_today(), now: utc_now_rfc3339(), fresh_id: new_task_id() };
    proof {
        crate::dates::lemma_rfc3339_cuttable(m.now@);
    }
    m
}

/// Editing the first task with the given id (nothing when there is none).
pub open spec fn updated(old: Agenda, new: Agenda, id: Seq<char>, e: TodoEdit) -> bool {
    match id_pos(old.records.todos@, id) {
        None => new == old,
        Some(i) => exists|b: Todo, t: Todo, r: bool|
            same_todo(b, old.records.todos@[i]) && #[trigger] edited(b, e, t) && #[trigger] saved(old, new, Some(b), t, r),
    }
}

/// `t` is `b` completed at `now`.
pub open spec fn completed_form(b: Todo, t: Todo, now: Seq<char>) -> bool {
    &&& same_todo(t, Todo { status: Status::Done, is_completed: true, is_cancelled: false, completed_at: t.completed_at, ..b })
    &&& opt_view(t.completed_at) == Some(now)
}

/// `n` is the next occurrence of `b`: a fresh open copy with the given id,
/// day, creation stamp and place at the end of the list, without its
/// checklist, deadline, reminder or flags.
pub open spec fn next_form(b: Todo, n: Todo, id: Seq<char>, day: Option<Seq<char>>, now: Seq<char>, order: i32) -> bool {
    &&& same_todo(n, Todo {
        id: n.id,
        status: Status::Todo,
        scheduled_date: n.scheduled_date,
        completed_at: None,
        is_completed: false,
        is_cancelled: false,
        is_today: false,
        is_evening: false,
        is_someday: false,
        deadline: None,
        reminder_date: None,
        checklist: n.checklist,
        created_at: n.created_at,
        sort_order: order,
        ..b
    })
    &&& n.id@ == id
    &&& opt_view(n.scheduled_date) == day
    &&& n.checklist@.len() == 0
    &&& n.created_at@ == now
}

/// Completing the first task with the given id: marked done now, and when it
/// repeats, its next occurrence is created; already completed tasks stay.
pub open spec fn todo_completed(old: Agenda, new: Agenda, id: Seq<char>, m: Moment) -> bool {
    match id_pos(old.records.todos@, id) {
        None => new == old,
        Some(i) => if old.records.todos@[i].is_completed {
            new == old
        } else {
            exists|b: Todo, t: Todo, nx: Option<Todo>| {
                &&& same_todo(b, old.records.todos@[i])
                &&& #[trigger] completed_form(b, t, m.now@)
                &&& match b.recurrence {
                    None => nx is None,
                    Some(rule) => nx matches Some(n) && next_form(b, n, m.fresh_id@,
                        next_recurrence_text(rule, t, m.today), m.now@, old.records.todos@.len() as i32),
                }
                &&& #[trigger] completion_saved(old, new, b, t, nx)
            }
        },
    }
}

/// Setting a task's status: Done completes it, any other status reopens or
/// defers or cancels it.
pub open spec fn status_set(old: Agenda, new: Agenda, id: Seq<char>, s: Status, m: Moment) -> bool {
    if s == Status::Done {
        todo_completed(old, new, id, m)
    } else {
        exists|k: String| k@ == key_text(m.today) && updated(old, new, id, TodoEdit::Status(s, k))
    }
}

impl Agenda {
    /// The first task with this id.
    pub fn todo(&self, id: &str) -> (r: Option<&Todo>)
        ensures
            match id_pos(self.records.todos@, id@) {
                Some(i) => r == Some(&self.records.todos@[i]),
                None => r is None,
            },
    {
        match find_todo(&self.records.todos, id) {
            Some(i) => {
                proof {
                    lemma_id_pos_from(self.records.todos@, id@, 0);
                }
                Some(&self.records.todos[i])
            },
            None => None,
        }
    }

    /// The first project with this id.
    pub fn project(&self, id: &str) -> (r: Option<&Project>)
        ensures
            match project_pos(self.records.projects@, id@) {
                Some(i) => r == Some(&self.records.projects@[i]),
                None => r is None,
            },
    {
        match find_project(&self.records.projects, id) {
            Some(i) => Some(&self.records.projects[i]),
            None => None,
        }
    }

    /// Edits the first task with the given id and saves the result.
    pub fn update_todo(&mut self, id: &str, e: TodoEdit)
        ensures
            updated(*old(self), *final(self), id@, e),
    {
        let i = match find_todo(&self.records.todos, id) {
            Some(i) => i,
            None => {
                return;
            },
        };
        proof {
            lemma_id_pos_from(self.records.todos@, id@, 0);
        }
        let before = self.records.todos[i].copy();
        let t = edit_todo(&before, e);
        let ghost gb = before;
        let ghost gt = t;
        let r = self.save_todo(Some(before), t);
        proof {
            assert(edited(gb, e, gt));
        }
    }

    /// Completes the first task with the given id (see `todo_completed`).
    pub fn complete_todo(&mut self, id: &str, m: &Moment)
        requires
            repeat_dates_cuttable(old(self).records.todos@, id@),
            valid_date(m.today),
        ensures
            todo_completed(*old(self), *final(self), id@, *m),
    {
        let i = match find_todo(&self.records.todos, id) {
            Some(i) => i,
            None => {
                return;
            },
        };
        proof {
            lemma_id_pos_from(self.records.todos@, id@, 0);
        }
        let before = self.records.todos[i].copy();
        if before.is_completed {
            return;
        }
        let mut todo = before.copy();
        todo.status = Status::Done;
        todo.is_completed = true;
        todo.is_cancelled = false;
        todo.completed_at = Some(m.now.clone());
        let order = #[verifier::truncate] (self.records.todos.len() as i32);
        let next = match &todo.recurrence {
            Some(rule) => {
                proof {
                    assert(crate::model::day_dates_cuttable(todo));
                }
                let mut n = before.copy();
                n.id = m.fresh_id.clone();
                n.status = Status::Todo;
                n.scheduled_date = next_recurrence_date_from(rule, &todo, m.today);
                n.completed_at = None;
                n.is_completed = false;
                n.is_cancelled = false;
                n.is_today = false;
                n.is_evening = false;
                n.is_someday = false;
                n.deadline = None;
                n.reminder_date = None;
                n.checklist = Vec::new();
                n.created_at = m.now.clone();
                n.sort_order = order;
                Some(n)
            },
            None => None,
        };
        let ghost gb = before;
        let ghost gt = todo;
        let ghost gn = next;
        self.save_completion(before, todo, next);
        proof {
            assert(completed_form(gb, gt, m.now@));
        }
    }

    /// Sets a task's status (Done completes it).
    pub fn set_todo_status(&mut self, id: &str, status: Status, m: &Moment)
        requires
            status == Status::Done ==> repeat_dates_cuttable(old(self).records.todos@, id@),
            valid_date(m.today),
        ensures
            status_set(*old(self), *final(self), id@, status, *m),
    {
        if status == Status::Done {
            self.complete_todo(id, m);
            return;
        }
        let k = key_of(m.today);
        let ghost gk = k;
        self.update_todo(id, TodoEdit::Status(status, k));
    }
}

/// The task found under the given id, where it repeats, has a scheduled
/// day and deadline that can be cut to their day parts (completing it
/// reads them).
pub open spec fn repeat_dates_cuttable(ts: Seq<Todo>, id: Seq<char>) -> bool {
    match id_pos(ts, id) {
        Some(i) => ts[i].recurrence is Some ==> day_dates_cuttable(ts[i]),
        None => true,
    }
}

/// The dates an action reads can be cut: those of a repeating task that
/// it may complete.
pub open spec fn action_dates_cuttable(ts: Seq<Todo>, a: MenuAction) -> bool {
    match a {
        MenuAction::SetStatus(id, s) => s == Status::Done ==> repeat_dates_cuttable(ts, id@),
        MenuAction::CompleteTodo(id) => repeat_dates_cuttable(ts, id@),
        _ => true,
    }
}

/// An action picked from a context menu or a dropdown.
pub enum MenuAction {
    TrashTodo(String),
    OpenTask(String),
    RestoreProject(String),
    ArchiveProject(String),
    DeleteProject(String),
    RenameProject(String),
    SetStatus(String, Status),
    SetPriority(String, u8),
    SetProject(String, Option<String>),
    AddTag(String, String),
    SetSignificance(String, Option<u8>),
    SetBillable(String, bool),
    SetDate(String, Option<String>),
    RestoreTodo(String),
    MoveToToday(String),
    DeferTodo(String),
    CompleteTodo(String),
    RemoveTag(String, String),
    QeSetProject(Option<String>),
    QeSetDate(Option<String>),
    RecurSetFreq(u8),
    RecurSetType(u8),
    Noop,
}

/// First tag with the given id.
pub open spec fn tag_pos(ts: Seq<Tag>, id: Seq<char>) -> Option<int> {
    if exists|i: int| 0 <= i < ts.len() && ts[i].id@ == id {
        Some(choose|i: int| 0 <= i < ts.len() && ts[i].id@ == id && forall|j: int| 0 <= j < i ==> ts[j].id@ != id)
    } else {
        None
    }
}

pub(crate) fn find_tag(tags: &Vec<Tag>, id: &str) -> (r: Option<usize>)
    ensures
        r matches Some(i) ==> i < tags@.len() && tags@[i as int].id@ == id@ && forall|j: int|
            0 <= j < i ==> tags@[j].id@ != id@,
        r is None ==> forall|j: int| 0 <= j < tags@.len() ==> tags@[j].id@ != id@,
{
    let mut i: usize = 0;
    while i < tags.len()
        invariant
            i <= tags@.len(),
            forall|j: int| 0 <= j < i ==> tags@[j].id@ != id@,
        decreases tags@.len() - i,
    {
        if str_equal(tags[i].id.as_str(), id) {
            return Some(i);
        }
        i = i + 1;
    }
    None
}

impl Agenda {
    /// The first tag with this id.
    pub fn tag(&self, id: &str) -> (r: Option<&Tag>)
        ensures
            match tag_pos(self.records.tags@, id@) {
                Some(i) => r == Some(&self.records.tags@[i]),
                None => r is None,
            },
    {
        match find_tag(&self.records.tags, id) {
            Some(i) => {
                proof {
                    let ts = self.records.tags@;
                    assert(0 <= i < ts.len() && ts[i as int].id@ == id@);
                    let c = choose|k: int| 0 <= k < ts.len() && ts[k].id@ == id@ && forall|j: int| 0 <= j < k ==> ts[j].id@ != id@;
                    assert(c == i as int);
                }
                Some(&self.records.tags[i])
            },
            None => None,
        }
    }
}

/// The project a "move to project" action names, when it exists.
pub open spec fn known_project(ps: Seq<Project>, pid: Option<String>) -> Option<Seq<char>> {
    match pid {
        Some(p) => if project_pos(ps, p@) is Some { Some(p@) } else { None },
        None => None,
    }
}

/// Whether the first task with the id is done.
pub open spec fn todo_done(ts: Seq<Todo>, id: Seq<char>) -> bool {
    match id_pos(ts, id) {
        Some(i) => crate::model::status_of(ts[i]) == Status::Done,
        None => false,
    }
}

/// What an action does, before the model revision moves on.
pub open spec fn action_done(old: Agenda, new: Agenda, action: MenuAction, m: Moment) -> bool {
    match action {
        MenuAction::TrashTodo(id) => updated(old, new, id@, TodoEdit::Trash),
        MenuAction::OpenTask(id) => new == Agenda { panels: new.panels, ..old }
            && navigated(old.panels, new.panels, Route::Task(id)),
        MenuAction::RestoreProject(id) => project_status_set(old, new, id@, 0),
        MenuAction::ArchiveProject(id) => exists|mid: Agenda| #[trigger] project_status_set(old, mid, id@, 2)
            && if route_eq(mid.panels.route, Route::Project(id)) {
                new == Agenda { panels: new.panels, ..mid } && navigated(mid.panels, new.panels, Route::Inbox)
            } else {
                new == mid
            },
        MenuAction::DeleteProject(_) => new == Agenda { panels: Panels { delete_blocked: true, ..old.panels }, ..old },
        MenuAction::RenameProject(id) => new == Agenda { panels: new.panels, ..old }
            && navigated(old.panels, new.panels, Route::Project(id)),
        MenuAction::SetStatus(id, st) => status_set(old, new, id@, st, m),
        MenuAction::SetPriority(id, p) => updated(old, new, id@, TodoEdit::Priority(p)),
        MenuAction::SetProject(id, pid) => exists|q: Option<String>|
            opt_view(q) == known_project(old.records.projects@, pid) && #[trigger] updated(old, new, id@, TodoEdit::MoveToProject(q)),
        MenuAction::AddTag(id, tag) => if tag_pos(old.records.tags@, tag@) is Some {
            exists|t: String| t@ == tag@ && #[trigger] updated(old, new, id@, TodoEdit::AddTag(t))
        } else {
            new == old
        },
        MenuAction::SetSignificance(id, x) => updated(old, new, id@, TodoEdit::Significance(x)),
        MenuAction::SetBillable(id, x) => updated(old, new, id@, TodoEdit::Billable(x)),
        MenuAction::SetDate(id, d) => updated(old, new, id@, TodoEdit::Date(d)),
        MenuAction::RestoreTodo(id) => updated(old, new, id@, TodoEdit::Restore),
        MenuAction::MoveToToday(id) => exists|k: String| k@ == key_text(m.today) && #[trigger] updated(old, new, id@, TodoEdit::MoveToToday(k)),
        MenuAction::DeferTodo(id) => status_set(old, new, id@, Status::Deferred, m),
        MenuAction::CompleteTodo(id) => if todo_done(old.records.todos@, id@) {
            status_set(old, new, id@, Status::Todo, m)
        } else {
            todo_completed(old, new, id@, m)
        },
        MenuAction::RemoveTag(id, tag) => updated(old, new, id@, TodoEdit::RemoveTag(tag)),
        MenuAction::QeSetProject(p) => new == Agenda { entry: Entry { project: p, ..old.entry }, ..old },
        MenuAction::QeSetDate(d) => new == Agenda { entry: Entry { date: d, date_touched: true, ..old.entry }, ..old },
        MenuAction::RecurSetFreq(v) => new == Agenda { entry: Entry { recur_freq: v, ..old.entry }, ..old },
        MenuAction::RecurSetType(v) => new == Agenda { entry: Entry { recur_type: v, ..old.entry }, ..old },
        MenuAction::Noop => new == old,
    }
}

/// An action, then the model revision moves on.
pub open spec fn menu_applied(old: Agenda, new: Agenda, action: MenuAction, m: Moment) -> bool {
    exists|mid: Agenda| #[trigger] action_done(old, mid, action, m)
        && new == Agenda { records: Records { model_rev: bump(mid.records.model_rev), ..mid.records }, ..mid }
}

impl Agenda {
    /// Moves a task to the project with the given id (or out of projects).
    pub fn move_to_project(&mut self, id: &str, pid: Option<String>)
        ensures
            updated(*old(self), *final(self), id@, TodoEdit::MoveToProject(pid)),
    {
        self.update_todo(id, TodoEdit::MoveToProject(pid));
    }

    /// Schedules a task for today.
    pub fn move_to_today(&mut self, id: &str, m: &Moment)
        ensures
            exists|k: String| k@ == key_text(m.today) && #[trigger] updated(*old(self), *final(self), id@, TodoEdit::MoveToToday(k)),
    {
        let k = key_of(m.today);
        let ghost gk = k;
        self.update_todo(id, TodoEdit::MoveToToday(k));
    }

    fn do_action(&mut self, action: MenuAction, m: &Moment)
        requires
            action_dates_cuttable(old(self).records.todos@, action),
            valid_date(m.today),
        ensures
            action_done(*old(self), *final(self), action, *m),
    {
        let ghost a = action;
        match action {
            MenuAction::TrashTodo(id) => self.update_todo(id.as_str(), TodoEdit::Trash),
            MenuAction::OpenTask(id) => self.panels.navigate(Route::Task(id)),
            MenuAction::RestoreProject(id) => self.set_project_status(id.as_str(), 0),
            MenuAction::ArchiveProject(id) => {
                self.set_project_status(id.as_str(), 2);
                let ghost mid = *self;
                let on_it = match &self.panels.route {
                    Route::Project(r) => str_equal(r.as_str(), id.as_str()),
                    _ => false,
                };
                if on_it {
                    self.panels.navigate(Route::Inbox);
                }
                proof {
                    assert(project_status_set(*old(self), mid, id@, 2));
                }
            },
            MenuAction::DeleteProject(_id) => {
                self.panels.delete_blocked = true;
            },
            MenuAction::RenameProject(id) => self.panels.navigate(Route::Project(id)),
            MenuAction::SetStatus(id, st) => self.set_todo_status(id.as_str(), st, m),
            MenuAction::SetPriority(id, p) => self.update_todo(id.as_str(), TodoEdit::Priority(p)),
            MenuAction::SetProject(id, pid) => {
                let ghost gpid = pid;
                let q: Option<String> = match pid {
                    Some(p) => match find_project(&self.records.projects, p.as_str()) {
                        Some(i) => {
                            proof {
                                lemma_project_pos_from(self.records.projects@, p@, 0);
                            }
                            Some(self.records.projects[i].id.clone())
                        },
                        None => None,
                    },
                    None => None,
                };
                let ghost gq = q;
                assert(opt_view(gq) == known_project(self.records.projects@, gpid));
                self.move_to_project(id.as_str(), q);
            },
            MenuAction::AddTag(id, tag) => {
                match find_tag(&self.records.tags, tag.as_str()) {
                    Some(i) => {
                        let t = self.records.tags[i].id.clone();
                        let ghost gt = t;
                        self.update_todo(id.as_str(), TodoEdit::AddTag(t));
                        proof {
                            assert(tag_pos(old(self).records.tags@, tag@) is Some);
                        }
                    },
                    None => {
                        proof {
                            assert(tag_pos(old(self).records.tags@, tag@) is None);
                        }
                    },
                }
            },
            MenuAction::SetSignificance(id, x) => self.update_todo(id.as_str(), TodoEdit::Significance(x)),
            MenuAction::SetBillable(id, x) => self.update_todo(id.as_str(), TodoEdit::Billable(x)),
            MenuAction::SetDate(id, d) => self.update_todo(id.as_str(), TodoEdit::Date(d)),
            MenuAction::RestoreTodo(id) => self.update_todo(id.as_str(), TodoEdit::Restore),
            MenuAction::MoveToToday(id) => self.move_to_today(id.as_str(), m),
            MenuAction::DeferTodo(id) => self.set_todo_status(id.as_str(), Status::Deferred, m),
            MenuAction::CompleteTodo(id) => {
                let done = match self.todo(id.as_str()) {
                    Some(t) => crate::model::task_status(t) == Status::Done,
                    None => false,
                };
                if done {
                    self.set_todo_status(id.as_str(), Status::Todo, m);
                } else {
                    self.complete_todo(id.as_str(), m);
                }
            },
            MenuAction::RemoveTag(id, tag) => self.update_todo(id.as_str(), TodoEdit::RemoveTag(tag)),
            MenuAction::QeSetProject(p) => {
                self.entry.project = p;
            },
            MenuAction::QeSetDate(d) => {
                self.entry.date = d;
                self.entry.date_touched = true;
            },
            MenuAction::RecurSetFreq(v) => {
                self.entry.recur_freq = v;
            },
            MenuAction::RecurSetType(v) => {
                self.entry.recur_type = v;
            },
            MenuAction::Noop => {},
        }
    }

    /// Runs a menu action (see `action_done`); the model revision moves on.
    pub fn run_menu_action(&mut self, action: MenuAction, m: &Moment)
        requires
            action_dates_cuttable(old(self).records.todos@, action),
            valid_date(m.today),
        ensures
            menu_applied(*old(self), *final(self), action, *m),
    {
        self.do_action(action, m);
        let ghost mid = *self;
        self.records.model_rev = next_rev(self.records.model_rev);
    }
}


// ---------------------------------------------------------------------------
// The model revision
// ---------------------------------------------------------------------------

/// The revision moved on by at most two steps.
pub open spec fn rev_moved(old: u64, new: u64) -> bool {
    new == old || new == bump(old) || new == bump(bump(old))
}

proof fn lemma_saved_rev(old: Agenda, new: Agenda, before: Option<Todo>, todo: Todo, r: bool)
    requires
        saved(old, new, before, todo, r),
    ensures
        new.records.model_rev == old.records.model_rev || new.records.model_rev == bump(old.records.model_rev),
{
}

proof fn lemma_updated_rev(old: Agenda, new: Agenda, id: Seq<char>, e: TodoEdit)
    requires
        updated(old, new, id, e),
    ensures
        new.records.model_rev == old.records.model_rev || new.records.model_rev == bump(old.records.model_rev),
{
    match id_pos(old.records.todos@, id) {
        None => {},
        Some(i) => {
            let (b, t, r) = choose|b: Todo, t: Todo, r: bool|
                same_todo(b, old.records.todos@[i]) && #[trigger] edited(b, e, t) && #[trigger] saved(old, new, Some(b), t, r);
            lemma_saved_rev(old, new, Some(b), t, r);
        },
    }
}

proof fn lemma_completed_rev(old: Agenda, new: Agenda, id: Seq<char>, m: Moment)
    requires
        todo_completed(old, new, id, m),
    ensures
        rev_moved(old.records.model_rev, new.records.model_rev),
{
    match id_pos(old.records.todos@, id) {
        None => {},
        Some(i) => {
            if !old.records.todos@[i].is_completed {
                let (b, t, nx) = choose|b: Todo, t: Todo, nx: Option<Todo>| {
                    &&& same_todo(b, old.records.todos@[i])
                    &&& #[trigger] completed_form(b, t, m.now@)
                    &&& match b.recurrence {
                        None => nx is None,
                        Some(rule) => nx matches Some(n) && next_form(b, n, m.fresh_id@,
                            next_recurrence_text(rule, t, m.today), m.now@, old.records.todos@.len() as i32),
                    }
                    &&& #[trigger] completion_saved(old, new, b, t, nx)
                };
                if before_demo_saves(old, b) {
                    let mid = choose|mid: Records| accepted(old.records, mid, t) && match nx {
                        Some(n) => accepted(mid, new.records, n),
                        None => new.records == mid,
                    };
                }
            }
        },
    }
}

spec fn before_demo_saves(old: Agenda, b: Todo) -> bool {
    b.system_kind is None && gate_open(old.link) && old.link.demo
}

proof fn lemma_status_set_rev(old: Agenda, new: Agenda, id: Seq<char>, s: Status, m: Moment)
    requires
        status_set(old, new, id, s, m),
    ensures
        rev_moved(old.records.model_rev, new.records.model_rev),
{
    if s == Status::Done {
        lemma_completed_rev(old, new, id, m);
    } else {
        let k = choose|k: String| k@ == key_text(m.today) && updated(old, new, id, TodoEdit::Status(s, k));
        lemma_updated_rev(old, new, id, TodoEdit::Status(s, k));
    }
}

/// A menu action moves the model revision on: past the action, which may
/// itself have moved it on, by one more step. Unless the revision wraps
/// around at its largest value, it grows.
pub proof fn law_menu_action_advances_revision(old: Agenda, new: Agenda, action: MenuAction, m: Moment)
    requires
        menu_applied(old, new, action, m),
        old.records.model_rev < u64::MAX - 2,
    ensures
        new.records.model_rev > old.records.model_rev,
{
    let mid = choose|mid: Agenda| #[trigger] action_done(old, mid, action, m)
        && new == Agenda { records: Records { model_rev: bump(mid.records.model_rev), ..mid.records }, ..mid };
    match action {
        MenuAction::TrashTodo(id) => lemma_updated_rev(old, mid, id@, TodoEdit::Trash),
        MenuAction::ArchiveProject(id) => {
            let p = choose|p: Agenda| #[trigger] project_status_set(old, p, id@, 2)
                && if route_eq(p.panels.route, Route::Project(id)) {
                    mid == Agenda { panels: mid.panels, ..p } && navigated(p.panels, mid.panels, Route::Inbox)
                } else {
                    mid == p
                };
        },
        MenuAction::SetStatus(id, st) => lemma_status_set_rev(old, mid, id@, st, m),
        MenuAction::SetPriority(id, p) => lemma_updated_rev(old, mid, id@, TodoEdit::Priority(p)),
        MenuAction::SetProject(id, pid) => {
            let q = choose|q: Option<String>|
                opt_view(q) == known_project(old.records.projects@, pid) && #[trigger] updated(old, mid, id@, TodoEdit::MoveToProject(q));
            lemma_updated_rev(old, mid, id@, TodoEdit::MoveToProject(q));
        },
        MenuAction::AddTag(id, tag) => {
            if tag_pos(old.records.tags@, tag@) is Some {
                let t = choose|t: String| t@ == tag@ && #[trigger] updated(old, mid, id@, TodoEdit::AddTag(t));
                lemma_updated_rev(old, mid, id@, TodoEdit::AddTag(t));
            }
        },
        MenuAction::SetSignificance(id, x) => lemma_updated_rev(old, mid, id@, TodoEdit::Significance(x)),
        MenuAction::SetBillable(id, x) => lemma_updated_rev(old, mid, id@, TodoEdit::Billable(x)),
        MenuAction::SetDate(id, d) => lemma_updated_rev(old, mid, id@, TodoEdit::Date(d)),
        MenuAction::RestoreTodo(id) => lemma_updated_rev(old, mid, id@, TodoEdit::Restore),
        MenuAction::MoveToToday(id) => {
            let k = choose|k: String| k@ == key_text(m.today) && #[trigger] updated(old, mid, id@, TodoEdit::MoveToToday(k));
            lemma_updated_rev(old, mid, id@, TodoEdit::MoveToToday(k));
        },
        MenuAction::DeferTodo(id) => lemma_status_set_rev(old, mid, id@, Status::Deferred, m),
        MenuAction::CompleteTodo(id) => {
            if todo_done(old.records.todos@, id@) {
                lemma_status_set_rev(old, mid, id@, Status::Todo, m);
            } else {
                lemma_completed_rev(old, mid, id@, m);
            }
        },
        MenuAction::RemoveTag(id, tag) => lemma_updated_rev(old, mid, id@, TodoEdit::RemoveTag(tag)),
        _ => {},
    }
}

} // verus!
