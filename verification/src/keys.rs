//! Keyboard shortcuts and the events of the text inputs.
use vstd::prelude::*;
use crate::capture::{parse_project_mention, project_mention};
use crate::dates::valid_date;
use crate::model::{opt_view, Project, Todo};
use crate::quick::{
    at_most, entry_capture, entry_saved, project_hits, search_opened, search_query,
    search_results, todo_hits,
};
use crate::text::str_equal;
use crate::views::{notes_committed, title_committed};
use crate::workspace::{reloaded, Agenda, Entry, Moment, Panels, Route, Search};

verus! {

/// What the host must do after a key was handled.
#[derive(PartialEq, Eq, Debug, Structural)]
pub enum KeyEffect {
    Nothing,
    /// Give the keyboard focus back to the window.
    FocusRoot,
}

/// The project page a route shows.
pub open spec fn route_project(r: Route) -> Option<Seq<char>> {
    match r {
        Route::Project(id) => Some(id@),
        _ => None,
    }
}

/// How many quick search results there are.
pub open spec fn search_count(a: Agenda) -> int {
    let q = search_query(a);
    if q.len() == 0 {
        0
    } else {
        at_most(todo_hits(a.records.todos@, q).len() as int, 8) + at_most(
            project_hits(a.records.projects@, q).len() as int,
            5,
        )
    }
}

/// The search selection after a key: one down (up to the last result) or
/// one up (down to the first).
pub open spec fn moved_selection(a: Agenda, down: bool) -> int {
    let sel = a.search.selected as int;
    if down {
        if search_count(a) > 0 {
            if sel + 1 < search_count(a) - 1 {
                sel + 1
            } else {
                search_count(a) - 1
            }
        } else {
            sel
        }
    } else if sel > 0 {
        sel - 1
    } else {
        0
    }
}

/// Closing the quick search.
pub open spec fn search_closed(old: Agenda, new: Agenda) -> bool {
    new == Agenda { search: Search { open: false, focused: false, ..old.search }, ..old }
}

/// Ctrl+K: opens the quick search with an empty query, or closes it.
pub open spec fn search_toggled(old: Agenda, new: Agenda, r: KeyEffect) -> bool {
    if !old.search.open {
        &&& r == KeyEffect::Nothing
        &&& new == Agenda {
            search: Search { open: true, query: new.search.query, selected: 0, ..old.search },
            ..old
        }
        &&& new.search.query@.len() == 0
    } else {
        r == KeyEffect::FocusRoot && search_closed(old, new)
    }
}

/// Ctrl+N: opens the quick entry afresh (on a project page, for that
/// project), or closes it.
pub open spec fn entry_toggled(old: Agenda, new: Agenda) -> bool {
    if !old.entry.open {
        &&& new == Agenda {
            entry: Entry {
                open: true,
                menu_open: false,
                billable: false,
                significance: None,
                date: None,
                date_touched: false,
                project: new.entry.project,
                ..old.entry
            },
            ..old
        }
        &&& opt_view(new.entry.project) == route_project(old.panels.route)
    } else {
        new == Agenda {
            entry: Entry { open: false, menu_open: false, focused: false, ..old.entry },
            ..old
        }
    }
}

/// A key while the quick search is open: Escape closes it, Down and Up move
/// the selection, anything else is ignored.
pub open spec fn search_keyed(old: Agenda, new: Agenda, key: Seq<char>, r: KeyEffect) -> bool {
    if key == "escape"@ {
        r == KeyEffect::FocusRoot && search_closed(old, new)
    } else if key == "down"@ || key == "up"@ {
        r == KeyEffect::Nothing && new == Agenda {
            search: Search { selected: moved_selection(old, key == "down"@) as usize, ..old.search },
            ..old
        }
    } else {
        r == KeyEffect::Nothing && new == old
    }
}

/// Escape elsewhere closes the menus, popovers and the quick entry.
pub open spec fn escaped(old: Agenda, new: Agenda) -> bool {
    new == Agenda {
        panels: Panels {
            options_for: None,
            more_open: false,
            menu_open: false,
            dropdown_open: false,
            recur_open: false,
            ..old.panels
        },
        entry: Entry {
            open: false,
            focused: if old.entry.open {
                false
            } else {
                old.entry.focused
            },
            menu_open: false,
            ..old.entry
        },
        ..old
    }
}

/// What a key press does. `ctrl` is Control or the platform key.
pub open spec fn key_handled(
    old: Agenda,
    new: Agenda,
    key: Seq<char>,
    ctrl: bool,
    shift: bool,
    alt: bool,
    r: KeyEffect,
) -> bool {
    if ctrl && key == "r"@ && !old.link.demo {
        r == KeyEffect::Nothing && new == Agenda { link: new.link, ..old } && reloaded(
            old.link,
            new.link,
        )
    } else if ctrl && key == "k"@ {
        search_toggled(old, new, r)
    } else if ctrl && key == "b"@ {
        r == KeyEffect::Nothing && new == Agenda {
            panels: Panels { sidebar_shown: !old.panels.sidebar_shown, ..old.panels },
            ..old
        }
    } else if ctrl && key == "n"@ && !shift && !alt {
        r == KeyEffect::Nothing && entry_toggled(old, new)
    } else if old.search.open {
        search_keyed(old, new, key, r)
    } else if key == "escape"@ {
        r == KeyEffect::Nothing && escaped(old, new)
    } else {
        r == KeyEffect::Nothing && new == old
    }
}

/// The events of a text input.
pub enum InputEvent {
    PressEnter,
    Change,
    Blur,
}

/// What an input event does. `input` names the input: the search query
/// ("qs"), the task page's title and notes ("task-title", "task-notes"),
/// the quick entry title ("qe-title"); `value` is its text and `notes` the
/// quick entry's notes. `r` is false only where the quick entry parser
/// could not read the title.
pub open spec fn input_handled(
    old: Agenda,
    new: Agenda,
    input: Seq<char>,
    ev: InputEvent,
    value: Seq<char>,
    notes: Seq<char>,
    m: Moment,
    r: bool,
) -> bool {
    if input == "qs"@ && ev is PressEnter {
        r && exists|todos: Seq<Todo>, projects: Seq<Project>|
            #[trigger] search_results(old, todos, projects) && search_opened(
                old,
                new,
                todos,
                projects,
            )
    } else if input == "qs"@ && ev is Change {
        r && new == Agenda { search: Search { selected: 0, ..old.search }, ..old }
    } else if input == "task-title"@ && (ev is Blur || ev is PressEnter) {
        r && title_committed(old, new, value)
    } else if input == "task-notes"@ && ev is Blur {
        r && notes_committed(old, new, value)
    } else if input == "qe-title"@ && ev is PressEnter {
        &&& r ==> entry_saved(old, new, value, notes, m)
        &&& !r ==> new == old && entry_capture(old, value, m) is None
    } else if input == "qe-title"@ && ev is Change {
        r && if old.entry.project is None {
            mention_picked(old, new, value)
        } else {
            new == old
        }
    } else {
        r && new == old
    }
}

/// The project mentioned in the typed title becomes the entry's project.
pub open spec fn mention_picked(old: Agenda, new: Agenda, value: Seq<char>) -> bool {
    exists|clean: Seq<char>, pid: Option<Seq<char>>|
        #[trigger] project_mention(value, old.records.projects@, clean, pid) && new == Agenda {
            entry: Entry { project: new.entry.project, ..old.entry },
            ..old
        } && opt_view(new.entry.project) == pid
}

impl Agenda {
    fn toggle_search(&mut self) -> (r: KeyEffect)
        ensures
            search_toggled(*old(self), *final(self), r),
    {
        self.search.open = !self.search.open;
        if self.search.open {
            self.search.query = String::new();
            self.search.selected = 0;
            KeyEffect::Nothing
        } else {
            self.search.focused = false;
            KeyEffect::FocusRoot
        }
    }

    fn toggle_entry(&mut self)
        ensures
            entry_toggled(*old(self), *final(self)),
    {
        self.entry.open = !self.entry.open;
        self.entry.menu_open = false;
        if self.entry.open {
            self.entry.billable = false;
            self.entry.significance = None;
            self.entry.date = None;
            self.entry.date_touched = false;
            self.entry.project = match &self.panels.route {
                Route::Project(id) => Some(id.clone()),
                _ => None,
            };
        } else {
            self.entry.focused = false;
        }
    }

    fn search_key(&mut self, key: &str) -> (r: KeyEffect)
        requires
            old(self).search.selected < usize::MAX,
        ensures
            search_keyed(*old(self), *final(self), key@, r),
    {
        if str_equal(key, "escape") {
            self.search.open = false;
            self.search.focused = false;
            return KeyEffect::FocusRoot;
        } else if str_equal(key, "down") {
            let (todos, projects) = self.quick_matches();
            let n = todos.len() + projects.len();
            proof {
                assert(n == search_count(*self));
            }
            if n > 0 {
                let next = self.search.selected + 1;
                self.search.selected = if next < n - 1 {
                    next
                } else {
                    n - 1
                };
            }
        } else if str_equal(key, "up") {
            self.search.selected = if self.search.selected > 0 {
                self.search.selected - 1
            } else {
                0
            };
        }
        KeyEffect::Nothing
    }

    fn escape_key(&mut self)
        ensures
            escaped(*old(self), *final(self)),
    {
        self.panels.options_for = None;
        self.panels.more_open = false;
        self.panels.menu_open = false;
        self.panels.dropdown_open = false;
        if self.entry.open {
            self.entry.open = false;
            self.entry.focused = false;
        }
        self.entry.menu_open = false;
        self.panels.recur_open = false;
    }

    /// Handles a key press.
    pub fn on_key(&mut self, key: &str, ctrl: bool, shift: bool, alt: bool) -> (r: KeyEffect)
        requires
            old(self).search.selected < usize::MAX,
        ensures
            key_handled(*old(self), *final(self), key@, ctrl, shift, alt, r),
    {
        if ctrl && str_equal(key, "r") && !self.link.demo {
            self.link.reload();
            return KeyEffect::Nothing;
        }
        if ctrl && str_equal(key, "k") {
            return self.toggle_search();
        }
        if ctrl && str_equal(key, "b") {
            self.panels.sidebar_shown = !self.panels.sidebar_shown;
            return KeyEffect::Nothing;
        }
        if ctrl && str_equal(key, "n") && !shift && !alt {
            self.toggle_entry();
            return KeyEffect::Nothing;
        }
        if self.search.open {
            return self.search_key(key);
        }
        if str_equal(key, "escape") {
            self.escape_key();
        }
        KeyEffect::Nothing
    }

    /// Handles an event of one of the text inputs (see `input_handled`).
    pub fn on_input_event(&mut self, input: &str, ev: InputEvent, value: &str, notes: &str, m: &Moment) -> (r: bool)
        requires
            valid_date(m.today),
        ensures
            input_handled(*old(self), *final(self), input@, ev, value@, notes@, *m, r),
    {
        let qs = str_equal(input, "qs");
        let title_input = str_equal(input, "task-title");
        let notes_input = str_equal(input, "task-notes");
        let entry_input = str_equal(input, "qe-title");
        match ev {
            InputEvent::PressEnter => {
                if qs {
                    self.quick_select_current();
                } else if title_input {
                    self.save_task_title(value);
                } else if entry_input {
                    return self.try_quick_entry_save(value, notes, m);
                }
            },
            InputEvent::Change => {
                if qs {
                    self.search.selected = 0;
                } else if entry_input && self.entry.project.is_none() {
                    let (_, pid) = parse_project_mention(value, self.records.projects.as_slice());
                    if pid.is_some() {
                        self.entry.project = pid;
                    }
                }
            },
            InputEvent::Blur => {
                if title_input {
                    self.save_task_title(value);
                } else if notes_input {
                    self.save_task_notes(value);
                }
            },
        }
        true
    }
}

} // verus!
