//! Messages between the agenda and its storage worker, which owns task
//! persistence in the Engine.
use vstd::prelude::*;
use crate::model::{Todo, Project, Area, Tag, Heading, todo_eq, todo_equal};
use crate::mapping::{EngineTask, read, read_refused, read_as, read_error, lemma_read_as_unique,
    lemma_read_as_same, task_type};
use crate::model::opt_view;
use crate::order::{Rank, OrderKey, ranks_of, sorted_selection, sort_selected, usize_seq_view};
use crate::text::str_equal;

verus! {

/// Everything a load brings back.
pub struct Snapshot {
    pub todos: Vec<Todo>,
    pub projects: Vec<Project>,
    pub areas: Vec<Area>,
    pub tags: Vec<Tag>,
    pub headings: Vec<Heading>,
}

impl Default for Snapshot {
    fn default() -> (r: Snapshot)
        ensures
            r.todos@.len() == 0,
            r.projects@.len() == 0,
            r.areas@.len() == 0,
            r.tags@.len() == 0,
            r.headings@.len() == 0,
    {
        Snapshot {
            todos: Vec::new(),
            projects: Vec::new(),
            areas: Vec::new(),
            tags: Vec::new(),
            headings: Vec::new(),
        }
    }
}

/// A task change to persist: the version it replaces (`None` for a new
/// task), the new version, and the next occurrence a completion created.
pub struct Mutation {
    pub before: Option<Todo>,
    pub todo: Todo,
    pub next: Option<Todo>,
}

/// Work for the storage worker.
pub enum Command {
    Load,
    Save(Box<Mutation>),
    Project(Project),
}

/// The worker's answer to a command.
pub enum Reply {
    Loaded(Result<Snapshot, String>),
    Saved(Box<Mutation>, Result<(), String>),
    Project(Result<Project, String>),
}

/// The stored object holds the task `b`: it reads as a task with the same
/// contents.
pub open spec fn holds(o: EngineTask, b: Todo) -> bool {
    exists|t: Todo| read_as(o, t) && todo_eq(t, b)
}

/// What a save does once it has fetched the stored copy of the task.
pub enum SaveStep {
    /// Write the task over the stored copy (or as a new object).
    Write,
    /// The task changed in another application since it was read.
    Conflict,
    /// A new task's id is taken already.
    Duplicate,
    /// The stored copy cannot be read, for this reason.
    ReadFailed(String),
}

/// What a save of `before`'s successor does, given the stored copy
/// `current` of the task: an edit needs the stored copy to hold `before`
/// still, and a new task needs its id to be free.
pub fn save_step(before: Option<&Todo>, current: Option<&EngineTask>) -> (r: SaveStep)
    ensures
        match before {
            Some(b) => match current {
                None => r is Conflict,
                Some(c) => if read_refused(*c) {
                    r matches SaveStep::ReadFailed(e) && e@ == read_error(*c)
                } else if holds(*c, *b) {
                    r is Write
                } else {
                    r is Conflict
                },
            },
            None => if current is Some {
                r is Duplicate
            } else {
                r is Write
            },
        },
{
    match before {
        Some(b) => match current {
            None => SaveStep::Conflict,
            Some(c) => match read(c) {
                Err(e) => SaveStep::ReadFailed(e),
                Ok(t) => {
                    if todo_equal(&t, b) {
                        SaveStep::Write
                    } else {
                        proof {
                            assert forall|u: Todo| read_as(*c, u) implies !todo_eq(u, *b) by {
                                lemma_read_as_unique(*c, t, u);
                            }
                        }
                        SaveStep::Conflict
                    }
                },
            },
        },
        None => match current {
            Some(_) => SaveStep::Duplicate,
            None => SaveStep::Write,
        },
    }
}

impl SaveStep {
    /// The message a refused save reports; `None` where the save goes on.
    pub fn refusal(&self) -> (r: Option<String>)
        ensures
            match *self {
                SaveStep::Write => r is None,
                SaveStep::Conflict => r matches Some(m) && m@ == "Задача изменилась в другом приложении. Обновите список."@,
                SaveStep::Duplicate => r matches Some(m) && m@ == "Задача с таким ID уже существует. Обновите список."@,
                SaveStep::ReadFailed(e) => r matches Some(m) && m@ == e@,
            },
    {
        match self {
            SaveStep::Write => None,
            SaveStep::Conflict => Some("Задача изменилась в другом приложении. Обновите список.".to_owned()),
            SaveStep::Duplicate => Some("Задача с таким ID уже существует. Обновите список.".to_owned()),
            SaveStep::ReadFailed(e) => Some(e.clone()),
        }
    }
}

/// What follows a failed save of a completed task's next occurrence.
pub enum Rollback {
    /// The next occurrence was stored after all.
    Accepted,
    /// The stored copy cannot be read, for this reason.
    ReadFailed(String),
    /// Nothing was stored: put the completed task back as it was, then fail.
    RollBackThenFail,
    /// Fail, leaving the store as it is.
    Fail,
}

/// Decides after a failed save of `next`, given what the store holds under
/// its id: a lost acknowledgement is accepted when the stored copy holds
/// `next`; where nothing was stored, an edited task is rolled back to
/// `before`.
pub fn after_next_failed(stored: Option<&EngineTask>, next: &Todo, before: Option<&Todo>) -> (r: Rollback)
    ensures
        match stored {
            Some(s) => if read_refused(*s) {
                r matches Rollback::ReadFailed(e) && e@ == read_error(*s)
            } else if holds(*s, *next) {
                r is Accepted
            } else {
                r is Fail
            },
            None => if before is Some {
                r is RollBackThenFail
            } else {
                r is Fail
            },
        },
{
    match stored {
        Some(s) => match read(s) {
            Err(e) => Rollback::ReadFailed(e),
            Ok(t) => {
                if todo_equal(&t, next) {
                    Rollback::Accepted
                } else {
                    proof {
                        assert forall|u: Todo| read_as(*s, u) implies !todo_eq(u, *next) by {
                            lemma_read_as_unique(*s, t, u);
                        }
                    }
                    Rollback::Fail
                }
            },
        },
        None => match before {
            Some(_) => Rollback::RollBackThenFail,
            None => Rollback::Fail,
        },
    }
}

/// An object of the task type.
pub open spec fn is_task_object(o: EngineTask) -> bool {
    opt_view(o.type_id) == Some(task_type())
}

/// The order a task object is loaded in: its sort order, 0 where it has none.
pub open spec fn sort_key(o: EngineTask) -> int {
    match o.props.ext.sort_order {
        Some(s) => s as int,
        None => 0,
    }
}

pub open spec fn load_ranks(objs: Seq<EngineTask>) -> Seq<Rank> {
    objs.map_values(|o: EngineTask| Rank { text: seq![], desc: false, first: sort_key(o), second: 0 })
}

pub open spec fn task_flags(objs: Seq<EngineTask>) -> Seq<bool> {
    objs.map_values(|o: EngineTask| is_task_object(o))
}

/// The task object at `i` is refused by a read.
pub open spec fn refused_at(objs: Seq<EngineTask>, i: int) -> bool {
    is_task_object(objs[i]) && read_refused(objs[i])
}

/// The references object is there (`Some`) with a model version (`None`
/// where it has none that is an integer) other than 1.
pub open spec fn refs_refused(refs: Option<Option<i64>>) -> bool {
    refs matches Some(v) && v != Some(1i64)
}

/// What a load makes of the listed objects and of the model version of the
/// references object, if there is one: the first task object that cannot be
/// read fails the load with its reason; else an unknown version of the
/// references fails it; else the tasks are the task objects read, ordered
/// by sort order, objects of equal order as listed.
pub fn load_tasks(objects: &Vec<EngineTask>, refs: Option<Option<i64>>) -> (r: Result<Vec<Todo>, String>)
    ensures
        match r {
            Err(e) => (exists|i: int|
                0 <= i < objects@.len() && refused_at(objects@, i) && (forall|j: int| 0 <= j < i ==> !refused_at(objects@, j))
                    && e@ == read_error(objects@[i]))
                || ((forall|i: int| 0 <= i < objects@.len() ==> !refused_at(objects@, i)) && refs_refused(refs)
                    && e@ == "Неизвестная версия справочников Agenda"@),
            Ok(v) => (forall|i: int| 0 <= i < objects@.len() ==> !refused_at(objects@, i)) && !refs_refused(refs)
                && exists|q: Seq<int>| sorted_selection(load_ranks(objects@), task_flags(objects@), q)
                    && v@.len() == q.len()
                    && forall|k: int| 0 <= k < q.len() ==> read_as(objects@[q[k]], #[trigger] v@[k]),
        },
{
    let mut reads: Vec<Option<Todo>> = Vec::new();
    let mut keys: Vec<OrderKey> = Vec::new();
    let mut chosen: Vec<bool> = Vec::new();
    let mut i: usize = 0;
    while i < objects.len()
        invariant
            i <= objects@.len(),
            reads@.len() == i,
            keys@.len() == i,
            chosen@.len() == i,
            forall|j: int| 0 <= j < i ==> #[trigger] keys@[j].rank() == load_ranks(objects@)[j],
            forall|j: int| 0 <= j < i ==> #[trigger] chosen@[j] == is_task_object(objects@[j]),
            forall|j: int| 0 <= j < i ==> !refused_at(objects@, j),
            forall|j: int| 0 <= j < i && is_task_object(objects@[j]) ==> (#[trigger] reads@[j] matches Some(t) && read_as(objects@[j], t)),
        decreases objects@.len() - i,
    {
        let o = &objects[i];
        let is_task = match &o.type_id {
            Some(k) => str_equal(k.as_str(), "com.kosmos.task"),
            None => false,
        };
        let first: i64 = match o.props.ext.sort_order {
            Some(s) => s as i64,
            None => 0,
        };
        keys.push(OrderKey { text: Vec::new(), desc: false, first, second: 0 });
        chosen.push(is_task);
        proof {
            reveal_strlit("com.kosmos.task");
            assert(keys@[i as int].text@ =~= Seq::<u8>::empty());
        }
        if is_task {
            match read(o) {
                Err(e) => {
                    proof {
                        assert(refused_at(objects@, i as int));
                    }
                    return Err(e);
                },
                Ok(t) => {
                    reads.push(Some(t));
                },
            }
        } else {
            reads.push(None);
        }
        i = i + 1;
    }
    proof {
        assert(ranks_of(keys@) =~= load_ranks(objects@));
        assert(chosen@ =~= task_flags(objects@));
    }
    match refs {
        Some(v) => {
            let known = match v {
                Some(n) => n == 1,
                None => false,
            };
            if !known {
                return Err("Неизвестная версия справочников Agenda".to_owned());
            }
        },
        None => {},
    }
    let q = sort_selected(&keys, &chosen);
    let ghost qs = usize_seq_view(q@);
    let mut v: Vec<Todo> = Vec::new();
    let mut k: usize = 0;
    while k < q.len()
        invariant
            qs == usize_seq_view(q@),
            sorted_selection(load_ranks(objects@), task_flags(objects@), qs),
            reads@.len() == objects@.len(),
            forall|j: int| 0 <= j < objects@.len() && is_task_object(objects@[j]) ==> (#[trigger] reads@[j] matches Some(t) && read_as(objects@[j], t)),
            k <= q@.len(),
            v@.len() == k,
            forall|m: int| 0 <= m < k ==> read_as(objects@[qs[m]], #[trigger] v@[m]),
        decreases q@.len() - k,
    {
        let j = q[k];
        proof {
            assert(qs[k as int] == j as int);
            assert(task_flags(objects@)[j as int]);
        }
        match &reads[j] {
            Some(t) => {
                let c = t.copy();
                proof {
                    lemma_read_as_same(objects@[j as int], *t, c);
                }
                v.push(c);
            },
            None => {
                proof {
                    assert(false);
                }
            },
        }
        k = k + 1;
    }
    proof {
        assert(qs.len() == v@.len());
    }
    Ok(v)
}

} // verus!
