//! Where the user goes from the chrome: the sidebar's navigation rows, the
//! click targets of a task row, and the task page's own steps (binding its
//! inputs to the opened task, its "more" menu).
use vstd::prelude::*;
use crate::menus::{item_view, iv, ActionView, MenuItem};
use crate::model::{opt_view, Todo};
use crate::workspace::{is_settings_route, route_eq, route_equal, settings_route, Agenda, MenuAction, Panels, Route};

verus! {

/// A navigation row of the sidebar.
pub struct NavRow {
    /// The row's name, for its element id.
    pub key: String,
    pub icon: String,
    pub label: String,
    /// The current page is the row's.
    pub active: bool,
    /// Where a click on the row goes.
    pub route: Route,
}

/// A navigation row with its texts as sequences.
pub struct NavView {
    pub key: Seq<char>,
    pub icon: Seq<char>,
    pub label: Seq<char>,
    pub active: bool,
    pub route: Route,
}

pub open spec fn nav_view(n: NavRow) -> NavView {
    NavView { key: n.key@, icon: n.icon@, label: n.label@, active: n.active, route: n.route }
}

pub open spec fn nv(key: Seq<char>, icon: Seq<char>, label: Seq<char>, active: bool, route: Route) -> NavView {
    NavView { key, icon, label, active, route }
}

/// The sidebar's navigation rows: on a settings page, back (to the page
/// the settings were opened from), appearance and about; elsewhere the
/// seven pages, each marked when it is the current one.
pub open spec fn sidebar_rows(p: Panels) -> Seq<NavView> {
    let here = p.route;
    if settings_route(here) {
        seq![
            nv("back"@, "icons/arrow-left.svg"@, "Назад"@, false, p.back_route),
            nv("appearance"@, "icons/sliders.svg"@, "Отображение"@, here == Route::Settings, Route::Settings),
            nv("about"@, "icons/help-circle.svg"@, "О приложении"@, here == Route::About, Route::About),
        ]
    } else {
        seq![
            nv("inbox"@, "icons/inbox.svg"@, "Входящие"@, here == Route::Inbox, Route::Inbox),
            nv("today"@, "icons/calendar-01.svg"@, "Сегодня"@, here == Route::Today, Route::Today),
            nv("plans"@, "icons/calendar-02.svg"@, "Планы"@, here == Route::Plans, Route::Plans),
            nv("calendar"@, "icons/calendar-02.svg"@, "Календарь"@, here == Route::Calendar, Route::Calendar),
            nv("someday"@, "icons/clock-01.svg"@, "Потом"@, here == Route::Someday, Route::Someday),
            nv("statistics"@, "icons/analytics-01.svg"@, "Статистика"@, here == Route::Statistics, Route::Statistics),
            nv("recurring"@, "icons/repeat.svg"@, "Повторяющиеся"@, here == Route::Recurring, Route::Recurring),
        ]
    }
}

fn text(s: &str) -> (r: String)
    ensures
        r@ == s@,
{
    s.to_owned()
}

fn copy_route(r: &Route) -> (c: Route)
    ensures
        c == *r,
{
    match r {
        Route::Inbox => Route::Inbox,
        Route::Today => Route::Today,
        Route::Plans => Route::Plans,
        Route::Calendar => Route::Calendar,
        Route::Someday => Route::Someday,
        Route::Statistics => Route::Statistics,
        Route::Recurring => Route::Recurring,
        Route::Logbook => Route::Logbook,
        Route::Trash => Route::Trash,
        Route::Settings => Route::Settings,
        Route::SettingsFuel => Route::SettingsFuel,
        Route::SettingsEnergy => Route::SettingsEnergy,
        Route::Dev => Route::Dev,
        Route::About => Route::About,
        Route::Project(id) => Route::Project(id.clone()),
        Route::Task(id) => Route::Task(id.clone()),
    }
}

fn nav_row(key: &str, icon: &str, label: &str, here: &Route, route: Route) -> (n: NavRow)
    ensures
        nav_view(n) == nv(key@, icon@, label@, route_eq(*here, route), route),
{
    let active = route_equal(here, &route);
    NavRow { key: text(key), icon: text(icon), label: text(label), active, route }
}

impl Agenda {
    /// The sidebar's navigation rows for the current page.
    pub fn sidebar_nav(&self) -> (r: Vec<NavRow>)
        ensures
            r@.map_values(|n: NavRow| nav_view(n)) == sidebar_rows(self.panels),
    {
        let here = &self.panels.route;
        let mut v: Vec<NavRow> = Vec::new();
        if is_settings_route(here) {
            v.push(NavRow {
                key: text("back"),
                icon: text("icons/arrow-left.svg"),
                label: text("Назад"),
                active: false,
                route: copy_route(&self.panels.back_route),
            });
            v.push(nav_row("appearance", "icons/sliders.svg", "Отображение", here, Route::Settings));
            v.push(nav_row("about", "icons/help-circle.svg", "О приложении", here, Route::About));
        } else {
            v.push(nav_row("inbox", "icons/inbox.svg", "Входящие", here, Route::Inbox));
            v.push(nav_row("today", "icons/calendar-01.svg", "Сегодня", here, Route::Today));
            v.push(nav_row("plans", "icons/calendar-02.svg", "Планы", here, Route::Plans));
            v.push(nav_row("calendar", "icons/calendar-02.svg", "Календарь", here, Route::Calendar));
            v.push(nav_row("someday", "icons/clock-01.svg", "Потом", here, Route::Someday));
            v.push(nav_row("statistics", "icons/analytics-01.svg", "Статистика", here, Route::Statistics));
            v.push(nav_row("recurring", "icons/repeat.svg", "Повторяющиеся", here, Route::Recurring));
        }
        proof {
            assert(v@.map_values(|n: NavRow| nav_view(n)) =~= sidebar_rows(self.panels));
        }
        v
    }

    /// Opens the task page of `id`: its title and notes inputs are bound to
    /// that task. Tells whether they were bound to another task before, so
    /// that the inputs start over from the task's own title and notes.
    pub fn open_task_page(&mut self, id: &str) -> (reset: bool)
        ensures
            reset == (opt_view(old(self).panels.input_task) != Some(id@)),
            opt_view(final(self).panels.input_task) == Some(id@),
            *final(self) == (Agenda { panels: Panels { input_task: final(self).panels.input_task, ..old(self).panels }, ..*old(self) }),
    {
        let bound = match &self.panels.input_task {
            Some(t) => crate::text::str_equal(t.as_str(), id),
            None => false,
        };
        if !bound {
            self.panels.input_task = Some(text(id));
        }
        !bound
    }
}

/// The task page's "more" menu: back to work, and delete.
pub open spec fn more_menu(id: Seq<char>) -> Seq<crate::menus::ItemView> {
    seq![iv("Вернуть в работу"@, false, ActionView::CompleteTodo(id)), iv("Удалить"@, true, ActionView::TrashTodo(id))]
}

/// The items of the task page's "more" menu for the task `id`.
pub fn task_more_menu(id: &str) -> (r: Vec<MenuItem>)
    ensures
        r@.map_values(|m: MenuItem| item_view(m)) == more_menu(id@),
{
    let mut v: Vec<MenuItem> = Vec::new();
    v.push(MenuItem { label: text("Вернуть в работу"), destructive: false, action: MenuAction::CompleteTodo(text(id)) });
    v.push(MenuItem { label: text("Удалить"), destructive: true, action: MenuAction::TrashTodo(text(id)) });
    proof {
        assert(v@.map_values(|m: MenuItem| item_view(m)) =~= more_menu(id@));
    }
    v
}

/// What a click on a task row's status ring runs: the completion toggle.
pub fn ring_action(t: &Todo) -> (a: MenuAction)
    ensures
        crate::menus::action_view(a) == ActionView::CompleteTodo(t.id@),
{
    MenuAction::CompleteTodo(t.id.clone())
}

/// Where a click on a task row goes: the task's page.
pub fn row_target(t: &Todo) -> (r: Route)
    ensures
        route_eq(r, Route::Task(t.id)),
{
    Route::Task(t.id.clone())
}

} // verus!
