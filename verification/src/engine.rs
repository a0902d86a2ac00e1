//! The vocabulary shared with the Engine task store: how its task statuses,
//! priorities and recurrence fields map to the agenda's and back.
use vstd::prelude::*;
use crate::model::{status_of, task_status, Status, Todo};
use crate::text::{str_equal, str_less, text_lt};
use crate::order::{lemma_bytes_lt_asymmetric, lemma_bytes_lt_irreflexive, lemma_bytes_lt_total,
    lemma_bytes_lt_transitive};
use vstd::utf8::encode_utf8;

verus! {

/// An Engine status that still counts as open work.
pub open spec fn open_canonical(c: Option<Seq<char>>) -> bool {
    c == Some("todo"@) || c == Some("inbox"@)
}

/// A local status kept in the extensions that refines an open one.
pub open spec fn refining_extension(e: Option<Seq<char>>) -> bool {
    e == Some("started"@) || e == Some("in_progress"@) || e == Some("deferred"@) || e == Some(
        "backlog"@,
    )
}

/// The status word read for a task: the extension's where it refines an
/// open Engine status, "deferred" for an open task in the backlog bucket,
/// else the Engine's own, else the extension's.
pub open spec fn status_word(c: Option<Seq<char>>, e: Option<Seq<char>>, backlog: bool) -> Option<Seq<char>> {
    if open_canonical(c) && refining_extension(e) {
        e
    } else if open_canonical(c) && backlog {
        Some("deferred"@)
    } else if c is Some {
        c
    } else {
        e
    }
}

/// The local status a status word stands for; unknown words are inbox.
pub open spec fn local_status(w: Option<Seq<char>>) -> Seq<char> {
    match w {
        Some(s) => if s == "inProgress"@ || s == "in_progress"@ || s == "started"@ {
            "started"@
        } else if s == "done"@ || s == "completed"@ {
            "done"@
        } else if s == "canceled"@ || s == "cancelled"@ || s == "duplicate"@ {
            "canceled"@
        } else if s == "deferred"@ || s == "backlog"@ {
            "deferred"@
        } else if s == "todo"@ {
            "todo"@
        } else {
            "inbox"@
        },
        None => "inbox"@,
    }
}

fn is_word(w: Option<&str>, word: &str) -> (r: bool)
    ensures
        r == (match w {
            Some(s) => Some(s@),
            None => None,
        } == Some(word@)),
{
    match w {
        Some(s) => str_equal(s, word),
        None => false,
    }
}

pub open spec fn opt_str(w: Option<&str>) -> Option<Seq<char>> {
    match w {
        Some(s) => Some(s@),
        None => None,
    }
}

/// The local status of a task read from the Engine: its status field
/// (`canonical`), the status kept in its extensions (`extension`), and
/// whether it sits in the backlog bucket.
pub fn read_status(canonical: Option<&str>, extension: Option<&str>, backlog: bool) -> (r: &'static str)
    ensures
        r@ == local_status(status_word(opt_str(canonical), opt_str(extension), backlog)),
{
    let open = is_word(canonical, "todo") || is_word(canonical, "inbox");
    let refines = is_word(extension, "started") || is_word(extension, "in_progress") || is_word(
        extension,
        "deferred",
    ) || is_word(extension, "backlog");
    let word = if open && refines {
        extension
    } else if open && backlog {
        Some("deferred")
    } else if canonical.is_some() {
        canonical
    } else {
        extension
    };
    if is_word(word, "inProgress") || is_word(word, "in_progress") || is_word(word, "started") {
        "started"
    } else if is_word(word, "done") || is_word(word, "completed") {
        "done"
    } else if is_word(word, "canceled") || is_word(word, "cancelled") || is_word(word, "duplicate") {
        "canceled"
    } else if is_word(word, "deferred") || is_word(word, "backlog") {
        "deferred"
    } else if is_word(word, "todo") {
        "todo"
    } else {
        "inbox"
    }
}

/// The Engine status written for a task's status.
pub open spec fn engine_status_of(s: Status) -> Seq<char> {
    match s {
        Status::Inbox => "inbox"@,
        Status::Todo | Status::Deferred => "todo"@,
        Status::Started => "inProgress"@,
        Status::Done => "done"@,
        Status::Canceled => "canceled"@,
    }
}

/// The Engine status a task is written with.
pub fn write_status(t: &Todo) -> (r: &'static str)
    ensures
        r@ == engine_status_of(status_of(*t)),
{
    match task_status(t) {
        Status::Inbox => "inbox",
        Status::Todo | Status::Deferred => "todo",
        Status::Started => "inProgress",
        Status::Done => "done",
        Status::Canceled => "canceled",
    }
}

/// The Engine's priority names, none to high.
pub open spec fn priority_name(p: u8) -> Seq<char> {
    if p == 0 {
        "none"@
    } else if p == 1 {
        "low"@
    } else if p == 2 {
        "medium"@
    } else {
        "high"@
    }
}

/// The Engine priority of a local priority (above high counts as high).
pub fn write_priority(p: u8) -> (r: &'static str)
    ensures
        r@ == priority_name(p),
{
    if p == 0 {
        "none"
    } else if p == 1 {
        "low"
    } else if p == 2 {
        "medium"
    } else {
        "high"
    }
}

/// The Engine's names of repeat frequencies, daily to yearly.
pub open spec fn frequency_name(f: u8) -> Seq<char> {
    if f == 0 {
        "daily"@
    } else if f == 1 {
        "weekly"@
    } else if f == 2 {
        "monthly"@
    } else {
        "yearly"@
    }
}

/// The Engine frequency of a local one (above yearly counts as yearly).
pub fn write_frequency(f: u8) -> (r: &'static str)
    ensures
        r@ == frequency_name(f),
{
    if f == 0 {
        "daily"
    } else if f == 1 {
        "weekly"
    } else if f == 2 {
        "monthly"
    } else {
        "yearly"
    }
}

/// The local frequency of an Engine frequency name; an unknown name is an
/// error.
pub fn read_frequency(name: &str) -> (r: Result<u8, String>)
    ensures
        match r {
            Ok(f) => f < 4 && frequency_name(f) == name@,
            Err(e) => e@ == "Некорректная периодичность задачи"@ && forall|f: u8| f < 4 ==> frequency_name(f) != name@,
        },
{
    if str_equal(name, "daily") {
        Ok(0)
    } else if str_equal(name, "weekly") {
        Ok(1)
    } else if str_equal(name, "monthly") {
        Ok(2)
    } else if str_equal(name, "yearly") {
        Ok(3)
    } else {
        Err("Некорректная периодичность задачи".to_owned())
    }
}

/// The Engine's name of a recurrence type: counted from completion, or on
/// a fixed schedule.
pub fn write_recurrence_type(t: u8) -> (r: &'static str)
    ensures
        r@ == if t == 1 {
            "afterCompletion"@
        } else {
            "fixed"@
        },
{
    if t == 1 {
        "afterCompletion"
    } else {
        "fixed"
    }
}

/// The local recurrence type of an Engine name: 1 for "afterCompletion",
/// else 0.
pub fn read_recurrence_type(name: &str) -> (r: u8)
    ensures
        r == if name@ == "afterCompletion"@ {
            1u8
        } else {
            0u8
        },
{
    if str_equal(name, "afterCompletion") {
        1
    } else {
        0
    }
}

/// The priority read from the Engine: the extension's, else the Engine's
/// own (both where they are whole numbers), at most high.
pub fn read_priority(extension: Option<u64>, canonical: Option<u64>) -> (r: u64)
    ensures
        r == match extension {
            Some(p) => if p < 3 {
                p
            } else {
                3
            },
            None => match canonical {
                Some(p) => if p < 3 {
                    p
                } else {
                    3
                },
                None => 0,
            },
        },
{
    let p = match extension {
        Some(p) => p,
        None => match canonical {
            Some(p) => p,
            None => 0,
        },
    };
    if p < 3 {
        p
    } else {
        3
    }
}

/// The word a local status is stored under.
pub open spec fn status_word_of(s: Status) -> Seq<char> {
    match s {
        Status::Inbox => "inbox"@,
        Status::Todo => "todo"@,
        Status::Started => "started"@,
        Status::Deferred => "deferred"@,
        Status::Done => "done"@,
        Status::Canceled => "canceled"@,
    }
}

/// What a read gives back of a written status: a task written with its
/// Engine status, its own status word kept in the extensions and, when it
/// is deferred, the backlog bucket, reads back with the status it had.
pub proof fn law_status_round_trip(t: Todo)
    ensures
        local_status(
            status_word(
                Some(engine_status_of(status_of(t))),
                Some(status_word_of(t.status)),
                t.status == Status::Deferred,
            ),
        ) == status_word_of(status_of(t)),
{
    reveal_strlit("inbox");
    reveal_strlit("todo");
    reveal_strlit("started");
    reveal_strlit("deferred");
    reveal_strlit("done");
    reveal_strlit("canceled");
    reveal_strlit("inProgress");
    reveal_strlit("in_progress");
    reveal_strlit("backlog");
    reveal_strlit("completed");
    reveal_strlit("cancelled");
    reveal_strlit("duplicate");
    let words = seq![
        "inbox"@, "todo"@, "started"@, "deferred"@, "done"@, "canceled"@, "inProgress"@,
        "in_progress"@, "backlog"@, "completed"@, "cancelled"@, "duplicate"@,
    ];
    assert forall|i: int, j: int| 0 <= i < j < 12 implies words[i] != words[j] by {
        if words[i].len() == words[j].len() {
            assert(words[i][0] != words[j][0] || words[i][1] != words[j][1] || words[i][2] != words[j][2]);
        }
    }
    assert("inbox"@ != "todo"@);
}

/// A frequency written to the Engine reads back as itself (above yearly,
/// as yearly).
pub proof fn law_frequency_round_trip(f: u8)
    ensures
        forall|g: u8| g < 4 && frequency_name(g) == frequency_name(f) ==> g == if f < 3 {
            f
        } else {
            3
        },
{
    reveal_strlit("daily");
    reveal_strlit("weekly");
    reveal_strlit("monthly");
    reveal_strlit("yearly");
    assert("daily"@.len() == 5 && "weekly"@.len() == 6 && "monthly"@.len() == 7 && "yearly"@.len() == 6);
    assert("weekly"@[0] != "yearly"@[0]);
}

/// An ASCII hexadecimal digit.
pub open spec fn hex_digit(b: u8) -> bool {
    (48 <= b <= 57) || (65 <= b <= 70) || (97 <= b <= 102)
}

/// The Engine's discovery file describes an Engine this client can talk
/// to: format and API version 1, a port, and a 64-digit hexadecimal token.
pub open spec fn lock_compatible(format_version: u32, api_major: u32, http_port: u16, token: Seq<u8>) -> bool {
    &&& format_version == 1
    &&& api_major == 1
    &&& http_port != 0
    &&& token.len() == 64
    &&& forall|i: int| 0 <= i < token.len() ==> hex_digit(#[trigger] token[i])
}

/// Whether the Engine described by a discovery file is one this client
/// supports.
pub fn engine_lock_compatible(format_version: u32, api_major: u32, http_port: u16, token: &str) -> (r: bool)
    ensures
        r == lock_compatible(format_version, api_major, http_port, vstd::utf8::encode_utf8(token@)),
{
    if format_version != 1 || api_major != 1 || http_port == 0 {
        return false;
    }
    let b = token.as_bytes();
    if b.len() != 64 {
        return false;
    }
    let mut i: usize = 0;
    while i < b.len()
        invariant
            b@ == vstd::utf8::encode_utf8(token@),
            format_version == 1 && api_major == 1 && http_port != 0 && b@.len() == 64,
            i <= b@.len(),
            forall|j: int| 0 <= j < i ==> hex_digit(#[trigger] b@[j]),
        decreases b@.len() - i,
    {
        let c = b[i];
        if !((48 <= c && c <= 57) || (65 <= c && c <= 70) || (97 <= c && c <= 102)) {
            proof {
                assert(!hex_digit(b@[i as int]));
            }
            return false;
        }
        i = i + 1;
    }
    true
}

/// A stored references object, by what the choice reads of it.
pub struct StoredObject {
    pub deleted: bool,
    /// Its `updatedAt` stamp (empty where it has none).
    pub updated_at: String,
}

/// The references object in use: among those not deleted, the one with the
/// greatest `updatedAt` (compared as text), the last of equals.
pub open spec fn is_latest(objs: Seq<StoredObject>, i: int) -> bool {
    &&& 0 <= i < objs.len()
    &&& !objs[i].deleted
    &&& forall|j: int| 0 <= j < objs.len() && !objs[j].deleted ==> !text_lt(objs[i].updated_at@, #[trigger] objs[j].updated_at@)
    &&& forall|j: int| i < j < objs.len() && !objs[j].deleted ==> text_lt(#[trigger] objs[j].updated_at@, objs[i].updated_at@)
}

/// The position of the references object in use; `None` when every one is
/// deleted.
pub fn latest_references(objs: &Vec<StoredObject>) -> (r: Option<usize>)
    ensures
        match r {
            Some(i) => is_latest(objs@, i as int),
            None => forall|j: int| 0 <= j < objs@.len() ==> #[trigger] objs@[j].deleted,
        },
{
    let mut best: Option<usize> = None;
    let mut k: usize = 0;
    while k < objs.len()
        invariant
            k <= objs@.len(),
            match best {
                Some(i) => {
                    &&& i < k
                    &&& !objs@[i as int].deleted
                    &&& forall|j: int| 0 <= j < k && !objs@[j].deleted ==> !text_lt(objs@[i as int].updated_at@, #[trigger] objs@[j].updated_at@)
                    &&& forall|j: int| i < j < k && !objs@[j].deleted ==> text_lt(#[trigger] objs@[j].updated_at@, objs@[i as int].updated_at@)
                },
                None => forall|j: int| 0 <= j < k ==> #[trigger] objs@[j].deleted,
            },
        decreases objs@.len() - k,
    {
        if !objs[k].deleted {
            match best {
                None => {
                    proof {
                        lemma_bytes_lt_irreflexive(encode_utf8(objs@[k as int].updated_at@));
                    }
                    best = Some(k);
                },
                Some(i) => {
                    let ghost ku = encode_utf8(objs@[k as int].updated_at@);
                    let ghost iu = encode_utf8(objs@[i as int].updated_at@);
                    if !str_less(objs[k].updated_at.as_str(), objs[i].updated_at.as_str()) {
                        proof {
                            assert forall|j: int| 0 <= j < k + 1 && !objs@[j].deleted implies !text_lt(objs@[k as int].updated_at@, #[trigger] objs@[j].updated_at@) by {
                                let ju = encode_utf8(objs@[j].updated_at@);
                                if j < k {
                                    lemma_bytes_lt_total(ju, iu);
                                    lemma_bytes_lt_transitive(ku, ju, iu);
                                } else {
                                    lemma_bytes_lt_irreflexive(ku);
                                }
                            }
                        }
                        best = Some(k);
                    } else {
                        proof {
                            lemma_bytes_lt_asymmetric(ku, iu);
                        }
                    }
                },
            }
        }
        k = k + 1;
    }
    best
}

/// The four period names are distinct.
pub proof fn lemma_frequency_names_distinct(f: u8, g: u8)
    requires
        f < 4,
        g < 4,
        frequency_name(f) == frequency_name(g),
    ensures
        f == g,
{
    reveal_strlit("daily");
    reveal_strlit("weekly");
    reveal_strlit("monthly");
    reveal_strlit("yearly");
    assert("daily"@[0] == 'd' && "weekly"@[0] == 'w' && "monthly"@[0] == 'm' && "yearly"@[0] == 'y');
    if f != g {
        assert(frequency_name(f)[0] != frequency_name(g)[0]);
    }
}


/// The Engine's words: priorities 0..3 are "none", "low", "medium",
/// "high" (higher counts as high); periods 0..3 "daily", "weekly",
/// "monthly", "yearly"; the statuses Inbox, Todo, Started, Deferred, Done,
/// Canceled are stored as "inbox", "todo", "inProgress", "todo", "done",
/// "canceled" with the local words "inbox", "todo", "started", "deferred",
/// "done", "canceled" kept beside them.
pub proof fn law_engine_vocabulary(p: u8, i: int)
    requires
        0 <= i < 6,
    ensures
        priority_name(p) == seq!["none"@, "low"@, "medium"@, "high"@][if p < 3 { p as int } else { 3 }],
        frequency_name(p) == seq!["daily"@, "weekly"@, "monthly"@, "yearly"@][if p < 3 { p as int } else { 3 }],
        ({
            let s = seq![Status::Inbox, Status::Todo, Status::Started, Status::Deferred, Status::Done, Status::Canceled][i];
            &&& engine_status_of(s) == seq!["inbox"@, "todo"@, "inProgress"@, "todo"@, "done"@, "canceled"@][i]
            &&& status_word_of(s) == seq!["inbox"@, "todo"@, "started"@, "deferred"@, "done"@, "canceled"@][i]
        }),
{
}

} // verus!
