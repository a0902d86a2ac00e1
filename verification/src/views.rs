//! What the pages show about the current route: the page title and icon,
//! the key its display options are stored under, the task it shows, the
//! label of a group of tasks by day, and the save on closing the window.
use vstd::prelude::*;
use crate::dates::{key_text, today_key};
use crate::format::{fmt_day_month, fmt_day_month_text};
use crate::model::{opt_view, todo_eq, Todo};
use crate::text::{push_str, str_equal, trim, trim_ws};
use crate::workspace::{id_pos, project_pos, saved, updated, Agenda, Route};
use crate::edits::TodoEdit;

verus! {

/// The title and icon of the page a route shows; a project or task page is
/// titled by its record, or by a generic word when it is gone.
pub open spec fn page_title_of(a: Agenda) -> (Seq<char>, Seq<char>) {
    match a.panels.route {
        Route::Inbox => ("Входящие"@, "icons/inbox.svg"@),
        Route::Today => ("Сегодня"@, "icons/calendar-01.svg"@),
        Route::Plans => ("Планы"@, "icons/calendar-02.svg"@),
        Route::Calendar => ("Календарь"@, "icons/calendar-02.svg"@),
        Route::Someday => ("Потом"@, "icons/clock-01.svg"@),
        Route::Statistics => ("Статистика"@, "icons/analytics-01.svg"@),
        Route::Recurring => ("Повторяющиеся"@, "icons/repeat.svg"@),
        Route::Logbook => ("Архив"@, "icons/book-open.svg"@),
        Route::Trash => ("Корзина"@, "icons/delete.svg"@),
        Route::Settings => ("Отображение"@, "icons/sliders.svg"@),
        Route::SettingsFuel => ("Мыслетопливо"@, "icons/star.svg"@),
        Route::SettingsEnergy => ("Энергосбережение"@, "icons/clock-01.svg"@),
        Route::Dev => ("Для разработчиков"@, "icons/settings.svg"@),
        Route::About => ("О приложении"@, "icons/help-circle.svg"@),
        Route::Project(id) => (
            match project_pos(a.records.projects@, id@) {
                Some(i) => a.records.projects@[i].title@,
                None => "Проект"@,
            },
            "icons/folder-open.svg"@,
        ),
        Route::Task(id) => (
            match id_pos(a.records.todos@, id@) {
                Some(i) => a.records.todos@[i].title@,
                None => "Задача"@,
            },
            "icons/task-01.svg"@,
        ),
    }
}

fn owned(s: &str) -> (r: String)
    ensures
        r@ == s@,
{
    s.to_owned()
}

/// The key the display options of a page are stored under; pages without
/// display options have none.
pub open spec fn options_key_of(r: Route) -> Option<Seq<char>> {
    match r {
        Route::Inbox => Some("agenda.inbox.view"@),
        Route::Today => Some("agenda.today.view"@),
        Route::Plans => Some("agenda.plans.view"@),
        Route::Someday => Some("agenda.someday.view"@),
        Route::Logbook => Some("agenda.logbook.view"@),
        Route::Project(id) => Some("agenda.project."@ + id@ + ".view"@),
        _ => None,
    }
}

/// The task a route shows.
pub open spec fn route_task(r: Route) -> Option<Seq<char>> {
    match r {
        Route::Task(id) => Some(id@),
        _ => None,
    }
}

/// The label of a group of tasks by day: no day, today, or the day and
/// month.
pub open spec fn date_group_text(value: Option<Seq<char>>, today: Seq<char>) -> Seq<char> {
    match value {
        None => "Без даты"@,
        Some(v) => if v == today {
            "Сегодня"@
        } else {
            fmt_day_month_text(v)
        },
    }
}

pub open spec fn str_opt(value: Option<&str>) -> Option<Seq<char>> {
    match value {
        Some(v) => Some(v@),
        None => None,
    }
}

/// The group label of a day on the given today's key.
pub fn date_group_label_on(value: Option<&str>, today: &str) -> (r: String)
    ensures
        r@ == date_group_text(str_opt(value), today@),
{
    match value {
        None => owned("Без даты"),
        Some(v) => if str_equal(v, today) {
            owned("Сегодня")
        } else {
            fmt_day_month(v)
        },
    }
}

/// The group label of a day, today read from the clock.
pub fn date_group_label(value: Option<&str>) -> (r: String)
    ensures
        exists|d: crate::dates::CivilDate|
            crate::dates::valid_date(d) && r@ == date_group_text(str_opt(value), key_text(d)),
{
    let today = today_key();
    date_group_label_on(value, today.as_str())
}

/// What closing the window saves: the title and notes typed on the open
/// task page, when they differ from the task. `title` and `notes` are the
/// contents of the inputs, where they exist.
pub open spec fn close_edit(a: Agenda, title: Option<Seq<char>>, notes: Option<Seq<char>>, b: Todo, t: Todo) -> bool {
    &&& t.title@ == match title {
        Some(s) => if trim_ws(s).len() > 0 {
            trim_ws(s)
        } else {
            b.title@
        },
        None => b.title@,
    }
    &&& opt_view(t.notes) == match notes {
        Some(s) => if trim_ws(s).len() == 0 {
            None
        } else {
            Some(trim_ws(s))
        },
        None => opt_view(b.notes),
    }
    &&& crate::model::same_todo(Todo { title: t.title, notes: t.notes, ..b }, t)
}

/// The window may close now (`r`), after the save of pending edits where
/// one was started (its outcome comes later, except in demo mode).
pub open spec fn close_prepared(old: Agenda, new: Agenda, title: Option<Seq<char>>, notes: Option<Seq<char>>, r: bool) -> bool {
    if old.link.busy {
        !r && new == old
    } else {
        match route_task(old.panels.route) {
            None => r && new == old,
            Some(id) => if opt_view(old.panels.input_task) != Some(id) {
                r && new == old
            } else {
                match id_pos(old.records.todos@, id) {
                    None => r && new == old,
                    Some(i) => exists|b: Todo, t: Todo|
                        crate::model::same_todo(b, old.records.todos@[i]) && #[trigger] close_edit(
                            old,
                            title,
                            notes,
                            b,
                            t,
                        ) && if todo_eq(t, b) {
                            r && new == old
                        } else {
                            r == old.link.demo && exists|ok: bool| #[trigger] saved(old, new, Some(b), t, ok)
                        },
                }
            },
        }
    }
}

/// Committing the title input of the open task page: a blank title is
/// ignored.
pub open spec fn title_committed(old: Agenda, new: Agenda, value: Seq<char>) -> bool {
    match route_task(old.panels.route) {
        None => new == old,
        Some(id) => if trim_ws(value).len() == 0 {
            new == old
        } else {
            titled(old, new, id, trim_ws(value))
        },
    }
}

/// The task `id` was edited to the given title.
pub open spec fn titled(old: Agenda, new: Agenda, id: Seq<char>, title: Seq<char>) -> bool {
    exists|s: String| s@ == title && #[trigger] updated(old, new, id, TodoEdit::Title(s))
}

/// The task `id` was edited to the given notes.
pub open spec fn noted(old: Agenda, new: Agenda, id: Seq<char>, notes: Option<Seq<char>>) -> bool {
    exists|n: Option<String>| opt_view(n) == notes && #[trigger] updated(old, new, id, TodoEdit::Notes(n))
}

/// Committing the notes input of the open task page: blank notes clear
/// them.
pub open spec fn notes_committed(old: Agenda, new: Agenda, value: Seq<char>) -> bool {
    match route_task(old.panels.route) {
        None => new == old,
        Some(id) => noted(old, new, id, if trim_ws(value).len() == 0 {
            None
        } else {
            Some(trim_ws(value))
        }),
    }
}

impl Agenda {
    /// Saves the title typed on the open task page.
    pub fn save_task_title(&mut self, value: &str)
        ensures
            title_committed(*old(self), *final(self), value@),
    {
        let tid = match self.current_task_id() {
            Some(id) => id,
            None => {
                return;
            },
        };
        let title = trim(value);
        if title.as_str().is_empty() {
            return;
        }
        let ghost tg = title;
        self.update_todo(tid.as_str(), TodoEdit::Title(title));
        proof {
            assert(updated(*old(self), *self, tid@, TodoEdit::Title(tg)));
        }
    }

    /// Saves the notes typed on the open task page.
    pub fn save_task_notes(&mut self, value: &str)
        ensures
            notes_committed(*old(self), *final(self), value@),
    {
        let tid = match self.current_task_id() {
            Some(id) => id,
            None => {
                return;
            },
        };
        let notes = trim(value);
        let n = if notes.as_str().is_empty() {
            None
        } else {
            Some(notes)
        };
        let ghost ng = n;
        self.update_todo(tid.as_str(), TodoEdit::Notes(n));
        proof {
            assert(updated(*old(self), *self, tid@, TodoEdit::Notes(ng)));
        }
    }

    /// The title and icon path of the current page.
    pub fn page_title(&self) -> (r: (String, &'static str))
        ensures
            (r.0@, r.1@) == page_title_of(*self),
    {
        match &self.panels.route {
            Route::Inbox => (owned("Входящие"), "icons/inbox.svg"),
            Route::Today => (owned("Сегодня"), "icons/calendar-01.svg"),
            Route::Plans => (owned("Планы"), "icons/calendar-02.svg"),
            Route::Calendar => (owned("Календарь"), "icons/calendar-02.svg"),
            Route::Someday => (owned("Потом"), "icons/clock-01.svg"),
            Route::Statistics => (owned("Статистика"), "icons/analytics-01.svg"),
            Route::Recurring => (owned("Повторяющиеся"), "icons/repeat.svg"),
            Route::Logbook => (owned("Архив"), "icons/book-open.svg"),
            Route::Trash => (owned("Корзина"), "icons/delete.svg"),
            Route::Settings => (owned("Отображение"), "icons/sliders.svg"),
            Route::SettingsFuel => (owned("Мыслетопливо"), "icons/star.svg"),
            Route::SettingsEnergy => (owned("Энергосбережение"), "icons/clock-01.svg"),
            Route::Dev => (owned("Для разработчиков"), "icons/settings.svg"),
            Route::About => (owned("О приложении"), "icons/help-circle.svg"),
            Route::Project(id) => (
                match self.project(id.as_str()) {
                    Some(p) => p.title.clone(),
                    None => owned("Проект"),
                },
                "icons/folder-open.svg",
            ),
            Route::Task(id) => (
                match self.todo(id.as_str()) {
                    Some(t) => t.title.clone(),
                    None => owned("Задача"),
                },
                "icons/task-01.svg",
            ),
        }
    }

    /// The key the current page's display options are stored under.
    pub fn view_options_key(&self) -> (r: Option<String>)
        ensures
            opt_view(r) == options_key_of(self.panels.route),
    {
        match &self.panels.route {
            Route::Inbox => Some(owned("agenda.inbox.view")),
            Route::Today => Some(owned("agenda.today.view")),
            Route::Plans => Some(owned("agenda.plans.view")),
            Route::Someday => Some(owned("agenda.someday.view")),
            Route::Logbook => Some(owned("agenda.logbook.view")),
            Route::Project(id) => {
                let mut s = owned("agenda.project.");
                push_str(&mut s, id.as_str());
                push_str(&mut s, ".view");
                Some(s)
            },
            _ => None,
        }
    }

    /// The id of the task the current page shows.
    pub fn current_task_id(&self) -> (r: Option<String>)
        ensures
            opt_view(r) == route_task(self.panels.route),
    {
        match &self.panels.route {
            Route::Task(id) => Some(id.clone()),
            _ => None,
        }
    }

    /// Before the window closes: saves the title and notes typed on the
    /// open task page; tells whether the window may close now.
    pub fn prepare_close(&mut self, title: Option<String>, notes: Option<String>) -> (r: bool)
        ensures
            close_prepared(*old(self), *final(self), opt_view(title), opt_view(notes), r),
    {
        if self.link.busy {
            return false;
        }
        let id = match self.current_task_id() {
            Some(id) => id,
            None => {
                return true;
            },
        };
        let bound = match &self.panels.input_task {
            Some(t) => str_equal(t.as_str(), id.as_str()),
            None => false,
        };
        if !bound {
            return true;
        }
        let before = match self.todo(id.as_str()) {
            Some(t) => t.copy(),
            None => {
                return true;
            },
        };
        let mut todo = before.copy();
        match &title {
            Some(s) => {
                let t = trim(s.as_str());
                if !t.as_str().is_empty() {
                    todo.title = t;
                }
            },
            None => {},
        }
        match &notes {
            Some(s) => {
                let n = trim(s.as_str());
                todo.notes = if n.as_str().is_empty() {
                    None
                } else {
                    Some(n)
                };
            },
            None => {},
        }
        let ghost b = before;
        let ghost t = todo;
        proof {
            assert(close_edit(*self, opt_view(title), opt_view(notes), b, t));
        }
        if crate::model::todo_equal(&todo, &before) {
            return true;
        }
        let demo = self.link.demo;
        let ok = self.save_todo(Some(before), todo);
        proof {
            assert(saved(*old(self), *self, Some(b), t, ok));
        }
        demo
    }
}

} // verus!
