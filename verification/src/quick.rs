//! Quick entry (a new task typed in one line) and quick search.
use vstd::prelude::*;
use crate::capture::{
    capture_view, parse_project_mention, parse_quick_entry_capture_on, project_mention,
    quick_entry_capture,
};
use crate::dates::{key_of, key_text, valid_date, CivilDate};
use crate::model::{copy_opt_string, new_todo, opt_view, same_todo, Project, Status, Todo};
use crate::text::{contains_str, first_occurrence, lowercase, to_lower, trim, trim_ws};
use vstd::utf8::encode_utf8;
use crate::workspace::{gate_open, navigated, route_eq, route_equal, saved, Agenda, Entry, Moment, Route, Search};

verus! {

/// Two optional texts hold the same text, or both none.
fn same_opt_text(a: &Option<String>, b: &Option<String>) -> (r: bool)
    ensures
        r == (opt_view(*a) == opt_view(*b)),
{
    match (a, b) {
        (Some(x), Some(y)) => crate::text::str_equal(x.as_str(), y.as_str()),
        (None, None) => true,
        _ => false,
    }
}

/// The day quick entry starts from on the current page: today on "Сегодня".
pub open spec fn page_default_day(a: Agenda, m: Moment) -> Option<Seq<char>> {
    if route_eq(a.panels.route, Route::Today) {
        Some(key_text(m.today))
    } else {
        None
    }
}

/// The entry's day is still the page's default and was not touched.
pub open spec fn contextual_day(a: Agenda, m: Moment) -> bool {
    !a.entry.date_touched && page_default_day(a, m) is Some && opt_view(a.entry.date)
        == page_default_day(a, m)
}

/// What the quick-entry parser makes of the typed title: a day chosen in
/// the entry wins over a day named in the title, except the page's default.
pub open spec fn entry_capture(a: Agenda, title: Seq<char>, m: Moment) -> Option<
    (Seq<char>, Option<Seq<char>>),
> {
    quick_entry_capture(
        trim_ws(title),
        if contextual_day(a, m) {
            None
        } else {
            opt_view(a.entry.date)
        },
        m.today,
    )
}

/// The task quick entry creates from a cleaned title, its day and project.
pub open spec fn entry_task(
    t: Todo,
    a: Agenda,
    notes: Seq<char>,
    m: Moment,
    title: Seq<char>,
    day: Option<Seq<char>>,
    project: Option<Seq<char>>,
) -> bool {
    &&& t.id@ == m.fresh_id@
    &&& t.title@ == title
    &&& opt_view(t.notes) == if trim_ws(notes).len() == 0 {
        None
    } else {
        Some(trim_ws(notes))
    }
    &&& opt_view(t.scheduled_date) == day
    &&& opt_view(t.project_id) == project
    &&& t.status == if day is Some || project is Some {
        Status::Todo
    } else {
        Status::Inbox
    }
    &&& t.billable == a.entry.billable
    &&& t.significance == a.entry.significance
    &&& t.sort_order == a.records.todos@.len() as i32
    &&& t.created_at@ == m.now@
    &&& t.priority == 0
    &&& t.deadline is None
    &&& t.reminder_date is None
    &&& !t.is_today && !t.is_evening && !t.is_someday
    &&& t.system_kind is None
    &&& !t.is_completed && t.completed_at is None && !t.is_cancelled && !t.is_trashed
    &&& t.heading_id is None && t.area_id is None
    &&& t.tag_ids@.len() == 0 && t.checklist@.len() == 0
    &&& t.recurrence is None
    &&& t.price is None && t.fuel_cost is None
}

/// The task's day: the one read or chosen, else the page's default.
pub open spec fn entry_day(a: Agenda, m: Moment, captured: Option<Seq<char>>) -> Option<Seq<char>> {
    if contextual_day(a, m) && captured is None {
        page_default_day(a, m)
    } else {
        captured
    }
}

/// The project chosen in the entry, else the one the title mentions.
pub open spec fn entry_project(a: Agenda, mentioned: Option<Seq<char>>) -> Option<Seq<char>> {
    match a.entry.project {
        Some(p) => Some(p@),
        None => mentioned,
    }
}

/// What saving the quick entry does: nothing without a title; otherwise a
/// new task is saved, with the day and project read out of its title where
/// the entry did not choose them, and the entry closes once it is kept.
pub open spec fn entry_saved(old: Agenda, new: Agenda, title: Seq<char>, notes: Seq<char>, m: Moment) -> bool {
    if !gate_open(old.link) {
        new == Agenda { link: new.link, ..old } && crate::workspace::gate_refused(old.link, new.link)
    } else if trim_ws(title).len() == 0 {
        new == old
    } else {
        let captured = entry_capture(old, title, m)->Some_0;
        let day = entry_day(old, m, captured.1);
        exists|clean: Seq<char>, pid: Option<Seq<char>>, t: Todo, mid: Agenda, r: bool|
            {
                &&& (old.entry.project is Some ==> clean == captured.0 && pid is None)
                &&& (old.entry.project is None ==> project_mention(
                    captured.0,
                    old.records.projects@,
                    clean,
                    pid,
                ))
                &&& #[trigger] entry_task(t, old, notes, m, clean, day, entry_project(old, pid))
                &&& #[trigger] saved(old, mid, None, t, r)
                &&& new == if r {
                    Agenda { entry: Entry { open: false, ..mid.entry }, ..mid }
                } else {
                    mid
                }
            }
    }
}

/// The text searched for: the query trimmed and lowercased.
pub open spec fn search_query(a: Agenda) -> Seq<char> {
    lowercase(trim_ws(a.search.query@))
}

/// `h.contains(q)`.
pub open spec fn text_has(h: Seq<char>, q: Seq<char>) -> bool {
    first_occurrence(encode_utf8(h), encode_utf8(q)) is Some
}

/// The tasks not in the trash whose lowercased title holds the query, in
/// list order.
pub open spec fn todo_hits(ts: Seq<Todo>, q: Seq<char>) -> Seq<Todo>
    decreases ts.len(),
{
    if ts.len() == 0 {
        seq![]
    } else {
        let h = todo_hits(ts.drop_last(), q);
        if !ts.last().is_trashed && text_has(lowercase(ts.last().title@), q) {
            h.push(ts.last())
        } else {
            h
        }
    }
}

/// The projects whose lowercased title holds the query, in list order.
pub open spec fn project_hits(ps: Seq<Project>, q: Seq<char>) -> Seq<Project>
    decreases ps.len(),
{
    if ps.len() == 0 {
        seq![]
    } else {
        let h = project_hits(ps.drop_last(), q);
        if text_has(lowercase(ps.last().title@), q) {
            h.push(ps.last())
        } else {
            h
        }
    }
}

pub open spec fn at_most(n: int, k: int) -> int {
    if n < k {
        n
    } else {
        k
    }
}

/// Quick search results: up to eight tasks and five projects that match the
/// query, none for an empty query.
pub open spec fn search_results(a: Agenda, todos: Seq<Todo>, projects: Seq<Project>) -> bool {
    let q = search_query(a);
    if q.len() == 0 {
        todos.len() == 0 && projects.len() == 0
    } else {
        let th = todo_hits(a.records.todos@, q);
        let ph = project_hits(a.records.projects@, q);
        &&& todos.len() == at_most(th.len() as int, 8)
        &&& forall|i: int| 0 <= i < todos.len() ==> same_todo(#[trigger] todos[i], th[i])
        &&& projects == ph.take(at_most(ph.len() as int, 5))
    }
}

/// Opening the selected search result: the task or project at the selected
/// place of the results (tasks first), closing the search; nothing when the
/// place is past the results.
pub open spec fn search_opened(old: Agenda, new: Agenda, todos: Seq<Todo>, projects: Seq<Project>) -> bool {
    let sel = old.search.selected as int;
    if sel < todos.len() {
        &&& new == Agenda { search: Search { open: false, ..old.search }, panels: new.panels, ..old }
        &&& exists|r: Route| r matches Route::Task(id) && id@ == todos[sel].id@ && #[trigger] navigated(old.panels, new.panels, r)
    } else if sel - todos.len() < projects.len() {
        &&& new == Agenda { search: Search { open: false, ..old.search }, panels: new.panels, ..old }
        &&& exists|r: Route| r matches Route::Project(id) && id@ == projects[sel - todos.len()].id@ && #[trigger] navigated(old.panels, new.panels, r)
    } else {
        new == old
    }
}

impl Agenda {
    /// Opens the selected quick search result.
    pub fn quick_select_current(&mut self)
        ensures
            exists|todos: Seq<Todo>, projects: Seq<Project>|
                #[trigger] search_results(*old(self), todos, projects) && search_opened(*old(self), *final(self), todos, projects),
    {
        let (todos, projects) = self.quick_matches();
        let ghost tv = todos@;
        let ghost pv = projects@;
        let ghost start = *self;
        let sel = self.search.selected;
        if sel < todos.len() {
            let id = todos[sel].id.clone();
            self.search.open = false;
            let route = Route::Task(id);
            let ghost rg = route;
            self.panels.navigate(route);
            proof {
                assert(navigated(start.panels, self.panels, rg));
            }
        } else if sel - todos.len() < projects.len() {
            let id = projects[sel - todos.len()].id.clone();
            self.search.open = false;
            let route = Route::Project(id);
            let ghost rg = route;
            self.panels.navigate(route);
            proof {
                assert(navigated(start.panels, self.panels, rg));
            }
        }
        proof {
            assert(search_results(start, tv, pv));
        }
    }

    /// The quick search results for the current query.
    pub fn quick_matches(&self) -> (r: (Vec<Todo>, Vec<Project>))
        ensures
            search_results(*self, r.0@, r.1@),
    {
        let tq = trim(self.search.query.as_str());
        let q = to_lower(tq.as_str());
        let mut todos: Vec<Todo> = Vec::new();
        let mut projects: Vec<Project> = Vec::new();
        if q.as_str().is_empty() {
            return (todos, projects);
        }
        let ghost ts = self.records.todos@;
        let ghost qv = q@;
        let n = self.records.todos.len();
        let mut i: usize = 0;
        proof {
            assert(ts.take(0) =~= Seq::<Todo>::empty());
        }
        while i < n
            invariant
                n == ts.len(),
                ts == self.records.todos@,
                qv == q@,
                i <= n,
                todos@.len() == at_most(todo_hits(ts.take(i as int), qv).len() as int, 8),
                forall|j: int|
                    0 <= j < todos@.len() ==> same_todo(
                        #[trigger] todos@[j],
                        todo_hits(ts.take(i as int), qv)[j],
                    ),
            decreases n - i,
        {
            let t = &self.records.todos[i];
            proof {
                assert(ts.take(i + 1).drop_last() =~= ts.take(i as int));
                assert(ts.take(i + 1).last() == ts[i as int]);
            }
            if todos.len() < 8 && !t.is_trashed {
                let lt = to_lower(t.title.as_str());
                if contains_str(lt.as_str(), q.as_str()) {
                    todos.push(t.copy());
                }
            }
            i = i + 1;
        }
        proof {
            assert(ts.take(n as int) =~= ts);
        }
        let ghost ps = self.records.projects@;
        let m = self.records.projects.len();
        let mut k: usize = 0;
        proof {
            assert(ps.take(0) =~= Seq::<Project>::empty());
        }
        while k < m
            invariant
                m == ps.len(),
                ps == self.records.projects@,
                qv == q@,
                k <= m,
                projects@ == project_hits(ps.take(k as int), qv).take(
                    at_most(project_hits(ps.take(k as int), qv).len() as int, 5),
                ),
            decreases m - k,
        {
            let p = &self.records.projects[k];
            proof {
                assert(ps.take(k + 1).drop_last() =~= ps.take(k as int));
                assert(ps.take(k + 1).last() == ps[k as int]);
            }
            let ghost before = project_hits(ps.take(k as int), qv);
            if projects.len() < 5 {
                let lt = to_lower(p.title.as_str());
                if contains_str(lt.as_str(), q.as_str()) {
                    projects.push(p.copy());
                    proof {
                        assert(project_hits(ps.take(k + 1), qv) == before.push(ps[k as int]));
                        assert(projects@ =~= before.push(ps[k as int]).take(
                            at_most((before.len() + 1) as int, 5),
                        ));
                    }
                }
            } else {
                proof {
                    let after = project_hits(ps.take(k + 1), qv);
                    assert(after.take(5) =~= before.take(5));
                }
            }
            k = k + 1;
        }
        proof {
            assert(ps.take(m as int) =~= ps);
        }
        (todos, projects)
    }

    /// The quick-entry parse of a typed title for the current entry state.
    pub fn entry_capture_of(&self, title: &str, m: &Moment) -> (r: Option<(String, Option<String>)>)
        requires
            valid_date(m.today),
        ensures
            capture_view(r) == entry_capture(*self, title@, *m),
    {
        let t = trim(title);
        let default_day = if route_equal(&self.panels.route, &Route::Today) {
            Some(key_of(m.today))
        } else {
            None
        };
        let contextual = !self.entry.date_touched && default_day.is_some() && same_opt_text(
            &self.entry.date,
            &default_day,
        );
        let selected = if contextual {
            None
        } else {
            copy_opt_string(&self.entry.date)
        };
        proof {
            assert(contextual == contextual_day(*self, *m));
        }
        parse_quick_entry_capture_on(t.as_str(), selected, m.today)
    }

    /// Saves the quick entry as a new task (see `entry_saved`).
    pub fn quick_entry_save(&mut self, title: &str, notes: &str, m: &Moment)
        requires
            valid_date(m.today),
            gate_open(old(self).link) && trim_ws(title@).len() > 0 ==> entry_capture(
                *old(self),
                title@,
                *m,
            ) is Some,
        ensures
            entry_saved(*old(self), *final(self), title@, notes@, *m),
    {
        if !self.link.can_save() {
            return;
        }
        let trimmed = trim(title);
        if trimmed.as_str().is_empty() {
            return;
        }
        let default_day = if route_equal(&self.panels.route, &Route::Today) {
            Some(key_of(m.today))
        } else {
            None
        };
        let contextual = !self.entry.date_touched && default_day.is_some() && same_opt_text(
            &self.entry.date,
            &default_day,
        );
        proof {
            assert(contextual == contextual_day(*self, *m));
        }
        let captured = self.entry_capture_of(title, m);
        let (ct, cd) = captured.unwrap();
        let ghost ct_v = ct@;
        let ghost cd_v = opt_view(cd);
        let ghost start = *self;
        proof {
            assert(opt_view(default_day) == page_default_day(start, *m));
            assert(entry_capture(start, title@, *m) == Some((ct_v, cd_v)));
        }
        let day = if contextual && cd.is_none() {
            default_day
        } else {
            cd
        };
        let (clean, pid) = if self.entry.project.is_some() {
            (ct, None)
        } else {
            parse_project_mention(ct.as_str(), self.records.projects.as_slice())
        };
        let ghost pid_v = opt_view(pid);
        proof {
            assert(start.entry.project is Some ==> clean@ == ct_v && pid_v is None);
            assert(start.entry.project is None ==> project_mention(ct_v, start.records.projects@, clean@, pid_v));
        }
        let project = match &self.entry.project {
            Some(p) => Some(p.clone()),
            None => pid,
        };
        let status = if day.is_some() || project.is_some() {
            Status::Todo
        } else {
            Status::Inbox
        };
        let mut t = new_todo(m.fresh_id.clone(), clean.as_str());
        let nt = trim(notes);
        t.notes = if nt.as_str().is_empty() {
            None
        } else {
            Some(nt)
        };
        t.scheduled_date = day;
        t.project_id = project;
        t.status = status;
        t.billable = self.entry.billable;
        t.significance = self.entry.significance;
        t.sort_order = #[verifier::truncate] (self.records.todos.len() as i32);
        t.created_at = m.now.clone();
        let ghost before = *self;
        let ghost tg = t;
        proof {
            assert(opt_view(project) == entry_project(before, pid_v));
            assert(entry_task(tg, before, notes@, *m, clean@, opt_view(day), entry_project(before, pid_v)));
        }
        let kept = self.save_todo(None, t);
        let ghost mid = *self;
        if kept {
            self.entry.open = false;
        }
        proof {
            assert(saved(before, mid, None, tg, kept));
            assert(*self == if kept {
                Agenda { entry: Entry { open: false, ..mid.entry }, ..mid }
            } else {
                mid
            });
            assert(before == *old(self));
            assert(opt_view(day) == if contextual_day(before, *m) && cd_v is None {
                page_default_day(before, *m)
            } else {
                cd_v
            });
        }
    }

    /// Saves the quick entry where the parser can read its title; `false`,
    /// with nothing changed, where it cannot.
    pub fn try_quick_entry_save(&mut self, title: &str, notes: &str, m: &Moment) -> (ok: bool)
        requires
            valid_date(m.today),
        ensures
            ok ==> entry_saved(*old(self), *final(self), title@, notes@, *m),
            !ok ==> *final(self) == *old(self) && gate_open(old(self).link) && trim_ws(title@).len()
                > 0 && entry_capture(*old(self), title@, *m) is None,
    {
        let open = self.link.demo || (!self.link.busy && self.link.ready);
        let trimmed = trim(title);
        if open && !trimmed.as_str().is_empty() && self.entry_capture_of(title, m).is_none() {
            return false;
        }
        self.quick_entry_save(title, notes, m);
        true
    }
}

/// The quick entry as it opens on a page: on a project page without a
/// chosen project it takes that project; on "Сегодня" without a chosen or
/// touched day it takes today.
pub open spec fn entry_defaults(old: Agenda, new: Agenda, today: CivilDate) -> bool {
    let project = match (old.entry.project, old.panels.route) {
        (None, Route::Project(pid)) => Some(pid@),
        _ => opt_view(old.entry.project),
    };
    let day = if old.entry.date is None && !old.entry.date_touched && route_eq(old.panels.route, Route::Today) {
        Some(key_text(today))
    } else {
        opt_view(old.entry.date)
    };
    &&& new == Agenda {
        entry: Entry { project: new.entry.project, date: new.entry.date, ..old.entry },
        ..old
    }
    &&& opt_view(new.entry.project) == project
    &&& opt_view(new.entry.date) == day
}

impl Agenda {
    /// Fills the quick entry's page defaults on the given day.
    pub fn apply_entry_defaults(&mut self, today: CivilDate)
        ensures
            entry_defaults(*old(self), *final(self), today),
    {
        if self.entry.project.is_none() {
            match &self.panels.route {
                Route::Project(pid) => {
                    self.entry.project = Some(pid.clone());
                },
                _ => {},
            }
        }
        let on_today = match self.panels.route {
            Route::Today => true,
            _ => false,
        };
        if self.entry.date.is_none() && !self.entry.date_touched && on_today {
            self.entry.date = Some(key_of(today));
        }
    }
}

} // verus!
