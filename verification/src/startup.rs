//! The agenda as it starts: demo data or an empty list waiting for storage,
//! the first page, and the overlay asked for at launch.
use vstd::prelude::*;
use crate::dates::CivilDate;
use crate::model::opt_view;
use crate::seeds::{
    seed_areas, seed_day, seed_events_on, seed_headings, seed_projects_on, seed_tags,
    seed_todos_on, seeded_areas, seeded_events, seeded_headings, seeded_projects, seeded_tags,
    seeded_todos,
};
use crate::store::Command;
use crate::text::{chars_of, str_equal, string_of};
use crate::workspace::{
    default_board, Agenda, BoardStore, Entry, Panels, Records, Route, Search, StorageLink,
};

verus! {

/// What `str::parse::<usize>` accepts: an optional `+` and ASCII digits, the
/// value in `usize`'s range.
pub open spec fn usize_text(s: Seq<char>) -> Option<int> {
    let ds = if s.len() > 0 && s[0] == '+' {
        s.drop_first()
    } else {
        s
    };
    if ds.len() == 0 || !crate::capture::ascii_digits(ds) || crate::capture::digits_value(ds)
        > usize::MAX {
        None
    } else {
        Some(crate::capture::digits_value(ds))
    }
}

/// `str::parse::<usize>`, as its documentation states it.
fn parse_usize(s: &str) -> (r: Option<usize>)
    ensures
        match r {
            Some(n) => usize_text(s@) == Some(n as int),
            None => usize_text(s@) is None,
        },
{
    let cs = chars_of(s);
    let start: usize = if cs.len() > 0 && cs[0] == '+' { 1 } else { 0 };
    if start == cs.len() {
        proof {
            assert(cs@.skip(start as int).len() == 0);
        }
        return None;
    }
    proof {
        if start == 1 {
            assert(cs@.skip(1) =~= s@.drop_first());
        } else {
            assert(cs@.skip(0) =~= s@);
        }
    }
    match crate::capture::digits_within(&cs, start, usize::MAX as u64) {
        None => None,
        Some(v) => Some(v as usize),
    }
}

pub open spec fn demo_wanted(demo: Option<Seq<char>>, devtasks: Option<Seq<char>>) -> bool {
    demo == Some("1"@) || (devtasks matches Some(d) && usize_text(d) is Some)
}

/// Demo mode is asked for by `AGENDA_DEMO=1`, or by a task count in
/// `AGENDA_DEVTASKS` (the values of those variables, where set).
pub fn demo_requested(demo: Option<&str>, devtasks: Option<&str>) -> (r: bool)
    ensures
        r == demo_wanted(
            match demo {
                Some(v) => Some(v@),
                None => None,
            },
            match devtasks {
                Some(v) => Some(v@),
                None => None,
            },
        ),
{
    let on = match demo {
        Some(v) => str_equal(v, "1"),
        None => false,
    };
    on || match devtasks {
        Some(v) => parse_usize(v).is_some(),
        None => false,
    }
}

/// The page a launch value names: a page by its name, `task/<id>` or
/// `project/<id>`; the inbox otherwise.
pub open spec fn launch_route(value: Option<Seq<char>>, r: Route) -> bool {
    match value {
        None => r == Route::Inbox,
        Some(v) => if v == "today"@ {
            r == Route::Today
        } else if v == "plans"@ {
            r == Route::Plans
        } else if v == "calendar"@ {
            r == Route::Calendar
        } else if v == "someday"@ {
            r == Route::Someday
        } else if v == "statistics"@ {
            r == Route::Statistics
        } else if v == "recurring"@ {
            r == Route::Recurring
        } else if v == "logbook"@ {
            r == Route::Logbook
        } else if v == "trash"@ {
            r == Route::Trash
        } else if v == "settings"@ {
            r == Route::Settings
        } else if v == "settings-fuel"@ {
            r == Route::SettingsFuel
        } else if v == "settings-energy"@ {
            r == Route::SettingsEnergy
        } else if v == "dev"@ {
            r == Route::Dev
        } else if v == "about"@ {
            r == Route::About
        } else if crate::capture::char_prefix("task/"@, v) {
            r matches Route::Task(id) && id@ == v.skip(5)
        } else if crate::capture::char_prefix("project/"@, v) {
            r matches Route::Project(id) && id@ == v.skip(8)
        } else {
            r == Route::Inbox
        },
    }
}

fn starts_with_text(s: &Vec<char>, p: &str) -> (r: bool)
    ensures
        r == crate::capture::char_prefix(p@, s@),
{
    let pv = chars_of(p);
    if pv.len() > s.len() {
        return false;
    }
    let mut i: usize = 0;
    while i < pv.len()
        invariant
            pv@ == p@,
            pv@.len() <= s@.len(),
            i <= pv@.len(),
            forall|j: int| 0 <= j < i ==> s@[j] == pv@[j],
        decreases pv@.len() - i,
    {
        if s[i] != pv[i] {
            proof {
                assert(s@.subrange(0, pv@.len() as int)[i as int] != pv@[i as int]);
            }
            return false;
        }
        i = i + 1;
    }
    proof {
        assert(s@.subrange(0, pv@.len() as int) =~= pv@);
    }
    true
}

fn rest_from(s: &Vec<char>, k: usize) -> (r: String)
    requires
        k <= s@.len(),
    ensures
        r@ == s@.skip(k as int),
{
    let mut v: Vec<char> = Vec::new();
    let mut i: usize = k;
    while i < s.len()
        invariant
            k <= i <= s@.len(),
            v@ == s@.subrange(k as int, i as int),
        decreases s@.len() - i,
    {
        v.push(s[i]);
        proof {
            assert(s@.subrange(k as int, i + 1) =~= s@.subrange(k as int, i as int).push(s@[i as int]));
        }
        i = i + 1;
    }
    proof {
        assert(v@ =~= s@.skip(k as int));
    }
    string_of(&v)
}

/// The first page, from the launch value (`AGENDA_ROUTE`).
pub fn initial_route(value: Option<&str>) -> (r: Route)
    ensures
        launch_route(
            match value {
                Some(v) => Some(v@),
                None => None,
            },
            r,
        ),
{
    let v = match value {
        None => {
            return Route::Inbox;
        },
        Some(v) => v,
    };
    if str_equal(v, "today") {
        Route::Today
    } else if str_equal(v, "plans") {
        Route::Plans
    } else if str_equal(v, "calendar") {
        Route::Calendar
    } else if str_equal(v, "someday") {
        Route::Someday
    } else if str_equal(v, "statistics") {
        Route::Statistics
    } else if str_equal(v, "recurring") {
        Route::Recurring
    } else if str_equal(v, "logbook") {
        Route::Logbook
    } else if str_equal(v, "trash") {
        Route::Trash
    } else if str_equal(v, "settings") {
        Route::Settings
    } else if str_equal(v, "settings-fuel") {
        Route::SettingsFuel
    } else if str_equal(v, "settings-energy") {
        Route::SettingsEnergy
    } else if str_equal(v, "dev") {
        Route::Dev
    } else if str_equal(v, "about") {
        Route::About
    } else {
        let cs = chars_of(v);
        proof {
            reveal_strlit("task/");
            reveal_strlit("project/");
        }
        if starts_with_text(&cs, "task/") {
            Route::Task(rest_from(&cs, 5))
        } else if starts_with_text(&cs, "project/") {
            Route::Project(rest_from(&cs, 8))
        } else {
            Route::Inbox
        }
    }
}

/// What the launch asks for: demo mode, the first page (`AGENDA_ROUTE`)
/// and an overlay to open (`AGENDA_OVERLAY`).
pub struct Launch {
    pub demo: bool,
    pub route: Option<String>,
    pub overlay: Option<String>,
}

/// The overlay asked for at launch is `name`.
pub open spec fn overlay_is(l: Launch, name: Seq<char>) -> bool {
    opt_view(l.overlay) == Some(name)
}

/// The agenda as it starts. In demo mode it holds the demonstration data
/// around `today` and needs no storage; otherwise it is empty, the storage
/// worker is attached and asked for a first load.
pub open spec fn started(a: Agenda, l: Launch, today: CivilDate, created: Seq<char>) -> bool {
    &&& a.link.demo == l.demo
    &&& a.link.error is None
    &&& if l.demo {
        &&& !a.link.connected && a.link.ready && !a.link.busy
        &&& a.link.outbox@.len() == 0
        &&& seeded_todos(a.records.todos@, today, created)
        &&& seeded_projects(a.records.projects@, today)
        &&& seeded_areas(a.records.areas@)
        &&& seeded_tags(a.records.tags@)
        &&& seeded_headings(a.records.headings@)
        &&& seeded_events(a.records.events@, today)
    } else {
        &&& a.link.connected && !a.link.ready && a.link.busy
        &&& a.link.outbox@ == seq![Command::Load]
        &&& a.records.todos@.len() == 0 && a.records.projects@.len() == 0
        &&& a.records.areas@.len() == 0 && a.records.tags@.len() == 0
        &&& a.records.headings@.len() == 0 && a.records.events@.len() == 0
    }
    &&& a.records.model_rev == 0
    &&& launch_route(opt_view(l.route), a.panels.route)
    &&& a.panels.back_route == Route::Inbox
    &&& !a.panels.share_open && !a.panels.options_open
    &&& opt_view(a.panels.options_for) == if overlay_is(l, "options"@) {
        Some("agenda.today.view"@)
    } else {
        None
    }
    &&& a.panels.more_open == overlay_is(l, "more"@)
    &&& !a.panels.menu_open && !a.panels.dropdown_open && !a.panels.delete_blocked
    &&& a.panels.input_task is None
    &&& !a.panels.recur_open && a.panels.sidebar_shown
    &&& a.panels.boards.wf() && a.panels.boards.view() == Map::<Seq<char>, crate::workspace::BoardOpts>::empty()
    &&& a.entry == Entry {
        open: overlay_is(l, "quickentry"@),
        billable: true,
        project: None,
        date: None,
        date_touched: false,
        significance: None,
        recur_freq: 0,
        recur_type: 0,
        recur_interval: 1,
        recur_days: a.entry.recur_days,
        menu_open: false,
        focused: false,
    }
    &&& a.entry.recur_days@ == Seq::<u8>::empty()
    &&& a.search.open == overlay_is(l, "quicksearch"@)
    &&& a.search.query@.len() == 0 && a.search.selected == 0 && !a.search.focused
}

fn overlay_named(l: &Launch, name: &str) -> (r: bool)
    ensures
        r == overlay_is(*l, name@),
{
    match &l.overlay {
        Some(o) => str_equal(o.as_str(), name),
        None => false,
    }
}

/// The display options stored for a page, or the defaults.
pub open spec fn stored_board(a: Agenda, key: Seq<char>) -> crate::workspace::BoardOpts {
    if a.panels.boards.view().dom().contains(key) {
        a.panels.boards.view()[key]
    } else {
        default_board()
    }
}

/// Only the options stored for `key` changed, to `opts`.
pub open spec fn boards_set(old: Agenda, new: Agenda, key: Seq<char>, opts: crate::workspace::BoardOpts) -> bool {
    &&& new.panels.boards.wf()
    &&& new.panels.boards.view() == old.panels.boards.view().insert(key, opts)
    &&& new == Agenda { panels: Panels { boards: new.panels.boards, ..old.panels }, ..old }
}

impl Agenda {
    /// The agenda at launch (see `started`); `created` stamps the demo tasks.
    pub fn new(launch: Launch, today: CivilDate, created: &str) -> (r: Agenda)
        requires
            launch.demo ==> seed_day(today),
        ensures
            started(r, launch, today, created@),
    {
        let demo = launch.demo;
        let records = if demo {
            Records {
                todos: seed_todos_on(today, created),
                projects: seed_projects_on(today),
                areas: seed_areas(),
                tags: seed_tags(),
                headings: seed_headings(),
                events: seed_events_on(today),
                model_rev: 0,
            }
        } else {
            Records {
                todos: Vec::new(),
                projects: Vec::new(),
                areas: Vec::new(),
                tags: Vec::new(),
                headings: Vec::new(),
                events: Vec::new(),
                model_rev: 0,
            }
        };
        let route = initial_route(
            match &launch.route {
                Some(r) => Some(r.as_str()),
                None => None,
            },
        );
        let options_for = if overlay_named(&launch, "options") {
            Some("agenda.today.view".to_owned())
        } else {
            None
        };
        let panels = Panels {
            route,
            back_route: Route::Inbox,
            share_open: false,
            options_open: false,
            options_for,
            more_open: overlay_named(&launch, "more"),
            menu_open: false,
            dropdown_open: false,
            delete_blocked: false,
            input_task: None,
            recur_open: false,
            sidebar_shown: true,
            boards: BoardStore::new(),
        };
        let entry = Entry {
            open: overlay_named(&launch, "quickentry"),
            billable: true,
            project: None,
            date: None,
            date_touched: false,
            significance: None,
            recur_freq: 0,
            recur_type: 0,
            recur_interval: 1,
            recur_days: Vec::new(),
            menu_open: false,
            focused: false,
        };
        let search = Search {
            open: overlay_named(&launch, "quicksearch"),
            query: String::new(),
            selected: 0,
            focused: false,
        };
        let link = StorageLink {
            demo,
            connected: false,
            outbox: Vec::new(),
            ready: demo,
            busy: false,
            error: None,
        };
        let mut a = Agenda { link, records, panels, entry, search };
        if !demo {
            a.link.connected = true;
            a.link.reload();
            proof {
                assert(a.link.outbox@ =~= seq![Command::Load]);
            }
        }
        a
    }

    /// The display options stored for a page.
    pub fn board_opts(&self, key: &str) -> (r: crate::workspace::BoardOpts)
        requires
            self.panels.boards.wf(),
        ensures
            r == stored_board(*self, key@),
    {
        self.panels.boards.get(key)
    }

    /// Stores display options for a page.
    pub fn set_board_opts(&mut self, key: String, opts: crate::workspace::BoardOpts)
        requires
            old(self).panels.boards.wf(),
        ensures
            boards_set(*old(self), *final(self), key@, opts),
    {
        self.panels.boards.set(key, opts);
    }
}

} // verus!
