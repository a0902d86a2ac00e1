//! The demonstration data: tasks, projects, areas, tags, headings and
//! calendar events around a given day.
use vstd::prelude::*;
use crate::dates::{
    day_key_from, iso_at, local_now_rfc3339, local_today, shifted_iso, shifted_key, valid_date, rfc3339_shaped,
    CivilDate, MAX_YEAR, MIN_YEAR,
};
use crate::model::{
    opt_view, Area, CalEvent, ChecklistItem, Heading, Project, RecurrenceRule, Status, Tag, Todo,
};

verus! {

/// A day whose neighbours within a year are all in chrono's range.
pub open spec fn seed_day(today: CivilDate) -> bool {
    valid_date(today) && MIN_YEAR < today.year < MAX_YEAR
}

fn owned(s: &str) -> (r: String)
    ensures
        r@ == s@,
{
    s.to_owned()
}

fn day(today: CivilDate, offset: i64) -> (r: String)
    requires
        seed_day(today),
        -365 <= offset <= 365,
    ensures
        Some(r@) == shifted_key(today, offset as int),
{
    day_key_from(today, offset).unwrap()
}

fn moment_at(today: CivilDate, offset: i64, hour: u32, minute: u32) -> (r: String)
    requires
        seed_day(today),
        -365 <= offset <= 365,
    ensures
        Some(r@) == shifted_iso(today, offset as int, hour as nat, minute as nat),
{
    iso_at(today, offset, hour, minute).unwrap()
}

/// The fields of seeded task `k` other than its creation stamp and place.
pub open spec fn seed_todo_spec(t: Todo, today: CivilDate, k: int) -> bool {
    if k == 0 {
        &&& t.id@ == "dev-inbox-1"@
        &&& t.title@ == "Перечитать бриф по лендингу"@
        &&& opt_view(t.notes) == Some("Обратить внимание на секцию про ценообразование."@)
        &&& t.priority == 0
        &&& t.scheduled_date is None
        &&& t.deadline is None
        &&& t.reminder_date is None
        &&& !t.is_today
        &&& !t.is_evening
        &&& !t.is_someday
        &&& t.status == Status::Inbox
        &&& t.system_kind is None
        &&& !t.is_completed
        &&& t.completed_at is None
        &&& !t.is_cancelled
        &&& !t.is_trashed
        &&& t.heading_id is None
        &&& t.project_id is None
        &&& t.area_id is None
        &&& t.tag_ids@.len() == 0
        &&& t.checklist@.len() == 0
        &&& t.recurrence is None
        &&& !t.billable
        &&& t.price is None
        &&& t.significance is None
        &&& t.fuel_cost is None
    } else if k == 1 {
        &&& t.id@ == "dev-inbox-2"@
        &&& t.title@ == "Записаться к стоматологу"@
        &&& t.notes is None
        &&& t.priority == 1
        &&& t.scheduled_date is None
        &&& t.deadline is None
        &&& t.reminder_date is None
        &&& !t.is_today
        &&& !t.is_evening
        &&& !t.is_someday
        &&& t.status == Status::Inbox
        &&& t.system_kind is None
        &&& !t.is_completed
        &&& t.completed_at is None
        &&& !t.is_cancelled
        &&& !t.is_trashed
        &&& t.heading_id is None
        &&& t.project_id is None
        &&& t.area_id is None
        &&& t.tag_ids@.len() == 0
        &&& t.checklist@.len() == 0
        &&& t.recurrence is None
        &&& !t.billable
        &&& t.price is None
        &&& t.significance is None
        &&& t.fuel_cost is None
    } else if k == 2 {
        &&& t.id@ == "dev-inbox-3"@
        &&& t.title@ == "Идея: виджет погоды в сайдбаре"@
        &&& t.notes is None
        &&& t.priority == 0
        &&& t.scheduled_date is None
        &&& t.deadline is None
        &&& t.reminder_date is None
        &&& !t.is_today
        &&& !t.is_evening
        &&& !t.is_someday
        &&& t.status == Status::Inbox
        &&& t.system_kind is None
        &&& !t.is_completed
        &&& t.completed_at is None
        &&& !t.is_cancelled
        &&& !t.is_trashed
        &&& t.heading_id is None
        &&& t.project_id is None
        &&& t.area_id is None
        &&& t.tag_ids@.len() == 0
        &&& t.checklist@.len() == 0
        &&& t.recurrence is None
        &&& !t.billable
        &&& t.price is None
        &&& t.significance is None
        &&& t.fuel_cost is None
    } else if k == 3 {
        &&& t.id@ == "dev-today-1"@
        &&& t.title@ == "Созвон по дизайну"@
        &&& t.notes is None
        &&& t.priority == 3
        &&& t.scheduled_date is None
        &&& t.deadline is None
        &&& t.reminder_date is None
        &&& t.is_today
        &&& !t.is_evening
        &&& !t.is_someday
        &&& t.status == Status::Todo
        &&& t.system_kind is None
        &&& !t.is_completed
        &&& t.completed_at is None
        &&& !t.is_cancelled
        &&& !t.is_trashed
        &&& t.heading_id is None
        &&& t.project_id is None
        &&& t.area_id is None
        &&& t.tag_ids@.len() == 2 && t.tag_ids@[0]@ == "dev-tag-urgent"@ && t.tag_ids@[1]@ == "dev-tag-focus"@
        &&& t.checklist@.len() == 0
        &&& t.recurrence is None
        &&& !t.billable
        &&& t.price is None
        &&& t.significance is None
        &&& t.fuel_cost == Some(35u32)
    } else if k == 4 {
        &&& t.id@ == "dev-today-2"@
        &&& t.title@ == "Отправить инвойс клиенту"@
        &&& t.notes is None
        &&& t.priority == 0
        &&& opt_view(t.scheduled_date) == shifted_key(today, 0)
        &&& opt_view(t.deadline) == shifted_key(today, 0)
        &&& t.reminder_date is None
        &&& !t.is_today
        &&& !t.is_evening
        &&& !t.is_someday
        &&& t.status == Status::Todo
        &&& t.system_kind is None
        &&& !t.is_completed
        &&& t.completed_at is None
        &&& !t.is_cancelled
        &&& !t.is_trashed
        &&& t.heading_id is None
        &&& opt_view(t.project_id) == Some("dev-proj-release"@)
        &&& t.area_id is None
        &&& t.tag_ids@.len() == 0
        &&& t.checklist@.len() == 0
        &&& t.recurrence is None
        &&& t.billable
        &&& t.price == Some(15000i64)
        &&& t.significance is None
        &&& t.fuel_cost is None
    } else if k == 5 {
        &&& t.id@ == "dev-today-evening"@
        &&& t.title@ == "Почитать главу книги"@
        &&& t.notes is None
        &&& t.priority == 0
        &&& t.scheduled_date is None
        &&& t.deadline is None
        &&& t.reminder_date is None
        &&& t.is_today
        &&& t.is_evening
        &&& !t.is_someday
        &&& t.status == Status::Todo
        &&& t.system_kind is None
        &&& !t.is_completed
        &&& t.completed_at is None
        &&& !t.is_cancelled
        &&& !t.is_trashed
        &&& t.heading_id is None
        &&& t.project_id is None
        &&& opt_view(t.area_id) == Some("dev-area-life"@)
        &&& t.tag_ids@.len() == 0
        &&& t.checklist@.len() == 0
        &&& t.recurrence is None
        &&& !t.billable
        &&& t.price is None
        &&& t.significance is None
        &&& t.fuel_cost is None
    } else if k == 6 {
        &&& t.id@ == "dev-overdue-1"@
        &&& t.title@ == "Вернуть правки по макетам"@
        &&& t.notes is None
        &&& t.priority == 3
        &&& opt_view(t.scheduled_date) == shifted_key(today, -1)
        &&& t.deadline is None
        &&& t.reminder_date is None
        &&& !t.is_today
        &&& !t.is_evening
        &&& !t.is_someday
        &&& t.status == Status::Todo
        &&& t.system_kind is None
        &&& !t.is_completed
        &&& t.completed_at is None
        &&& !t.is_cancelled
        &&& !t.is_trashed
        &&& t.heading_id is None
        &&& t.project_id is None
        &&& t.area_id is None
        &&& t.tag_ids@.len() == 1 && t.tag_ids@[0]@ == "dev-tag-urgent"@
        &&& t.checklist@.len() == 0
        &&& t.recurrence is None
        &&& !t.billable
        &&& t.price is None
        &&& t.significance is None
        &&& t.fuel_cost == Some(20u32)
    } else if k == 7 {
        &&& t.id@ == "dev-checklist-1"@
        &&& t.title@ == "Подготовить демо для команды"@
        &&& t.notes is None
        &&& t.priority == 0
        &&& opt_view(t.scheduled_date) == shifted_key(today, 1)
        &&& t.deadline is None
        &&& t.reminder_date is None
        &&& !t.is_today
        &&& !t.is_evening
        &&& !t.is_someday
        &&& t.status == Status::Todo
        &&& t.system_kind is None
        &&& !t.is_completed
        &&& t.completed_at is None
        &&& !t.is_cancelled
        &&& !t.is_trashed
        &&& opt_view(t.heading_id) == Some("dev-head-prep"@)
        &&& opt_view(t.project_id) == Some("dev-proj-release"@)
        &&& t.area_id is None
        &&& t.tag_ids@.len() == 0
        &&& t.checklist@ == seq![ChecklistItem { is_completed: true }, ChecklistItem { is_completed: false }, ChecklistItem { is_completed: false }]
        &&& t.recurrence is None
        &&& !t.billable
        &&& t.price is None
        &&& t.significance is None
        &&& t.fuel_cost is None
    } else if k == 8 {
        &&& t.id@ == "dev-week-2"@
        &&& t.title@ == "Ревью PR по навигации"@
        &&& t.notes is None
        &&& t.priority == 0
        &&& opt_view(t.scheduled_date) == shifted_key(today, 2)
        &&& t.deadline is None
        &&& t.reminder_date is None
        &&& !t.is_today
        &&& !t.is_evening
        &&& !t.is_someday
        &&& t.status == Status::Started
        &&& t.system_kind is None
        &&& !t.is_completed
        &&& t.completed_at is None
        &&& !t.is_cancelled
        &&& !t.is_trashed
        &&& opt_view(t.heading_id) == Some("dev-head-polish"@)
        &&& opt_view(t.project_id) == Some("dev-proj-release"@)
        &&& t.area_id is None
        &&& t.tag_ids@.len() == 0
        &&& t.checklist@.len() == 0
        &&& t.recurrence is None
        &&& !t.billable
        &&& t.price is None
        &&& t.significance == Some(7u8)
        &&& t.fuel_cost == Some(15u32)
    } else if k == 9 {
        &&& t.id@ == "dev-week-3"@
        &&& t.title@ == "Оплатить интернет"@
        &&& t.notes is None
        &&& t.priority == 0
        &&& t.scheduled_date is None
        &&& opt_view(t.deadline) == shifted_key(today, 3)
        &&& opt_view(t.reminder_date) == shifted_iso(today, 3, 9, 0)
        &&& !t.is_today
        &&& !t.is_evening
        &&& !t.is_someday
        &&& t.status == Status::Todo
        &&& t.system_kind is None
        &&& !t.is_completed
        &&& t.completed_at is None
        &&& !t.is_cancelled
        &&& !t.is_trashed
        &&& t.heading_id is None
        &&& opt_view(t.project_id) == Some("dev-proj-home"@)
        &&& t.area_id is None
        &&& t.tag_ids@.len() == 0
        &&& t.checklist@.len() == 0
        &&& t.recurrence is None
        &&& !t.billable
        &&& t.price is None
        &&& t.significance is None
        &&& t.fuel_cost is None
    } else if k == 10 {
        &&& t.id@ == "dev-week-4"@
        &&& t.title@ == "Купить подарок Маше"@
        &&& t.notes is None
        &&& t.priority == 0
        &&& opt_view(t.scheduled_date) == shifted_key(today, 4)
        &&& t.deadline is None
        &&& t.reminder_date is None
        &&& !t.is_today
        &&& !t.is_evening
        &&& !t.is_someday
        &&& t.status == Status::Todo
        &&& t.system_kind is None
        &&& !t.is_completed
        &&& t.completed_at is None
        &&& !t.is_cancelled
        &&& !t.is_trashed
        &&& t.heading_id is None
        &&& t.project_id is None
        &&& opt_view(t.area_id) == Some("dev-area-life"@)
        &&& t.tag_ids@.len() == 1 && t.tag_ids@[0]@ == "dev-tag-home"@
        &&& t.checklist@.len() == 0
        &&& t.recurrence is None
        &&& !t.billable
        &&& t.price is None
        &&& t.significance is None
        &&& t.fuel_cost is None
    } else if k == 11 {
        &&& t.id@ == "dev-recurring-1"@
        &&& t.title@ == "Поливать цветы"@
        &&& t.notes is None
        &&& t.priority == 0
        &&& opt_view(t.scheduled_date) == shifted_key(today, 0)
        &&& t.deadline is None
        &&& t.reminder_date is None
        &&& !t.is_today
        &&& !t.is_evening
        &&& !t.is_someday
        &&& t.status == Status::Todo
        &&& t.system_kind is None
        &&& !t.is_completed
        &&& t.completed_at is None
        &&& !t.is_cancelled
        &&& !t.is_trashed
        &&& t.heading_id is None
        &&& t.project_id is None
        &&& opt_view(t.area_id) == Some("dev-area-life"@)
        &&& t.tag_ids@.len() == 0
        &&& t.checklist@.len() == 0
        &&& t.recurrence matches Some(r) && r.frequency == 1 && r.interval == 1 && r.recurrence_type == 0 && r.days_of_week@ == seq![1u8, 3u8, 5u8]
        &&& !t.billable
        &&& t.price is None
        &&& t.significance is None
        &&& t.fuel_cost is None
    } else if k == 12 {
        &&& t.id@ == "dev-next-week-1"@
        &&& t.title@ == "Запланировать отпуск"@
        &&& t.notes is None
        &&& t.priority == 2
        &&& opt_view(t.scheduled_date) == shifted_key(today, 8)
        &&& t.deadline is None
        &&& t.reminder_date is None
        &&& !t.is_today
        &&& !t.is_evening
        &&& !t.is_someday
        &&& t.status == Status::Todo
        &&& t.system_kind is None
        &&& !t.is_completed
        &&& t.completed_at is None
        &&& !t.is_cancelled
        &&& !t.is_trashed
        &&& t.heading_id is None
        &&& t.project_id is None
        &&& t.area_id is None
        &&& t.tag_ids@.len() == 0
        &&& t.checklist@.len() == 0
        &&& t.recurrence is None
        &&& !t.billable
        &&& t.price is None
        &&& t.significance is None
        &&& t.fuel_cost is None
    } else if k == 13 {
        &&& t.id@ == "dev-someday-1"@
        &&& t.title@ == "Собрать домашний кинотеатр"@
        &&& t.notes is None
        &&& t.priority == 0
        &&& t.scheduled_date is None
        &&& t.deadline is None
        &&& t.reminder_date is None
        &&& !t.is_today
        &&& !t.is_evening
        &&& t.is_someday
        &&& t.status == Status::Deferred
        &&& t.system_kind is None
        &&& !t.is_completed
        &&& t.completed_at is None
        &&& !t.is_cancelled
        &&& !t.is_trashed
        &&& t.heading_id is None
        &&& opt_view(t.project_id) == Some("dev-proj-someday"@)
        &&& t.area_id is None
        &&& t.tag_ids@.len() == 0
        &&& t.checklist@.len() == 0
        &&& t.recurrence is None
        &&& !t.billable
        &&& t.price is None
        &&& t.significance is None
        &&& t.fuel_cost is None
    } else if k == 14 {
        &&& t.id@ == "dev-done-today"@
        &&& t.title@ == "Утренняя планёрка"@
        &&& t.notes is None
        &&& t.priority == 0
        &&& opt_view(t.scheduled_date) == shifted_key(today, 0)
        &&& t.deadline is None
        &&& t.reminder_date is None
        &&& !t.is_today
        &&& !t.is_evening
        &&& !t.is_someday
        &&& t.status == Status::Done
        &&& t.system_kind is None
        &&& t.is_completed
        &&& opt_view(t.completed_at) == shifted_iso(today, 0, 9, 30)
        &&& !t.is_cancelled
        &&& !t.is_trashed
        &&& t.heading_id is None
        &&& t.project_id is None
        &&& t.area_id is None
        &&& t.tag_ids@.len() == 0
        &&& t.checklist@.len() == 0
        &&& t.recurrence is None
        &&& !t.billable
        &&& t.price is None
        &&& t.significance is None
        &&& t.fuel_cost is None
    } else if k == 15 {
        &&& t.id@ == "dev-done-yesterday"@
        &&& t.title@ == "Позвонить в банк"@
        &&& t.notes is None
        &&& t.priority == 0
        &&& t.scheduled_date is None
        &&& t.deadline is None
        &&& t.reminder_date is None
        &&& !t.is_today
        &&& !t.is_evening
        &&& !t.is_someday
        &&& t.status == Status::Done
        &&& t.system_kind is None
        &&& t.is_completed
        &&& opt_view(t.completed_at) == shifted_iso(today, -1, 14, 0)
        &&& !t.is_cancelled
        &&& !t.is_trashed
        &&& t.heading_id is None
        &&& t.project_id is None
        &&& t.area_id is None
        &&& t.tag_ids@.len() == 0
        &&& t.checklist@.len() == 0
        &&& t.recurrence is None
        &&& !t.billable
        &&& t.price is None
        &&& t.significance is None
        &&& t.fuel_cost is None
    } else if k == 16 {
        &&& t.id@ == "dev-canceled-1"@
        &&& t.title@ == "Встреча с брокером"@
        &&& t.notes is None
        &&& t.priority == 0
        &&& opt_view(t.scheduled_date) == shifted_key(today, 1)
        &&& t.deadline is None
        &&& t.reminder_date is None
        &&& !t.is_today
        &&& !t.is_evening
        &&& !t.is_someday
        &&& t.status == Status::Canceled
        &&& t.system_kind is None
        &&& !t.is_completed
        &&& opt_view(t.completed_at) == shifted_iso(today, 0, 11, 0)
        &&& t.is_cancelled
        &&& !t.is_trashed
        &&& t.heading_id is None
        &&& t.project_id is None
        &&& t.area_id is None
        &&& t.tag_ids@.len() == 0
        &&& t.checklist@.len() == 0
        &&& t.recurrence is None
        &&& !t.billable
        &&& t.price is None
        &&& t.significance is None
        &&& t.fuel_cost is None
    } else if k == 17 {
        &&& t.id@ == "dev-trash-1"@
        &&& t.title@ == "Черновик: старый план переезда"@
        &&& t.notes is None
        &&& t.priority == 0
        &&& t.scheduled_date is None
        &&& t.deadline is None
        &&& t.reminder_date is None
        &&& !t.is_today
        &&& !t.is_evening
        &&& !t.is_someday
        &&& t.status == Status::Inbox
        &&& t.system_kind is None
        &&& !t.is_completed
        &&& t.completed_at is None
        &&& !t.is_cancelled
        &&& t.is_trashed
        &&& t.heading_id is None
        &&& t.project_id is None
        &&& t.area_id is None
        &&& t.tag_ids@.len() == 0
        &&& t.checklist@.len() == 0
        &&& t.recurrence is None
        &&& !t.billable
        &&& t.price is None
        &&& t.significance is None
        &&& t.fuel_cost is None
    } else {
        false
    }
}

fn blank_seed(id: &str, title: &str, created: &str, k: i32) -> (t: Todo)
    ensures
        t.id@ == id@,
        t.title@ == title@,
        t.created_at@ == created@,
        t.sort_order == k,
        t.notes is None,
        t.priority == 0,
        t.scheduled_date is None,
        t.deadline is None,
        t.reminder_date is None,
        !t.is_today,
        !t.is_evening,
        !t.is_someday,
        t.status == Status::Inbox,
        t.system_kind is None,
        !t.is_completed,
        t.completed_at is None,
        !t.is_cancelled,
        !t.is_trashed,
        t.heading_id is None,
        t.project_id is None,
        t.area_id is None,
        t.tag_ids@.len() == 0,
        t.checklist@.len() == 0,
        t.recurrence is None,
        !t.billable,
        t.price is None,
        t.significance is None,
        t.fuel_cost is None,
{
    let mut t = crate::model::new_todo(owned(id), title);
    t.created_at = owned(created);
    t.sort_order = k;
    t
}

/// Seeded task `k` of the demonstration list.
fn seed_todo(k: i32, today: CivilDate, created: &str) -> (t: Todo)
    requires
        0 <= k < 18,
        seed_day(today),
    ensures
        seed_todo_spec(t, today, k as int),
        t.created_at@ == created@,
        t.sort_order == k,
{
    if k == 0 {
        let mut t = blank_seed("dev-inbox-1", "Перечитать бриф по лендингу", created, 0);
            t.notes = Some(owned("Обратить внимание на секцию про ценообразование."));
        t
    } else if k == 1 {
        let mut t = blank_seed("dev-inbox-2", "Записаться к стоматологу", created, 1);
            t.priority = 1;
        t
    } else if k == 2 {
        let mut t = blank_seed("dev-inbox-3", "Идея: виджет погоды в сайдбаре", created, 2);
        t
    } else if k == 3 {
        let mut t = blank_seed("dev-today-1", "Созвон по дизайну", created, 3);
            t.priority = 3;
            t.is_today = true;
            t.status = Status::Todo;
            t.tag_ids.push(owned("dev-tag-urgent")); t.tag_ids.push(owned("dev-tag-focus"));
            t.fuel_cost = Some(35);
        t
    } else if k == 4 {
        let mut t = blank_seed("dev-today-2", "Отправить инвойс клиенту", created, 4);
            t.scheduled_date = Some(day(today, 0));
            t.deadline = Some(day(today, 0));
            t.status = Status::Todo;
            t.project_id = Some(owned("dev-proj-release"));
            t.billable = true;
            t.price = Some(15000);
        t
    } else if k == 5 {
        let mut t = blank_seed("dev-today-evening", "Почитать главу книги", created, 5);
            t.is_today = true;
            t.is_evening = true;
            t.status = Status::Todo;
            t.area_id = Some(owned("dev-area-life"));
        t
    } else if k == 6 {
        let mut t = blank_seed("dev-overdue-1", "Вернуть правки по макетам", created, 6);
            t.priority = 3;
            t.scheduled_date = Some(day(today, -1));
            t.status = Status::Todo;
            t.tag_ids.push(owned("dev-tag-urgent"));
            t.fuel_cost = Some(20);
        t
    } else if k == 7 {
        let mut t = blank_seed("dev-checklist-1", "Подготовить демо для команды", created, 7);
            t.scheduled_date = Some(day(today, 1));
            t.status = Status::Todo;
            t.heading_id = Some(owned("dev-head-prep"));
            t.project_id = Some(owned("dev-proj-release"));
            t.checklist.push(ChecklistItem { is_completed: true });
            t.checklist.push(ChecklistItem { is_completed: false });
            t.checklist.push(ChecklistItem { is_completed: false });
            proof {
                assert(t.checklist@ =~= seq![
                    ChecklistItem { is_completed: true },
                    ChecklistItem { is_completed: false },
                    ChecklistItem { is_completed: false },
                ]);
            }
        t
    } else if k == 8 {
        let mut t = blank_seed("dev-week-2", "Ревью PR по навигации", created, 8);
            t.scheduled_date = Some(day(today, 2));
            t.status = Status::Started;
            t.heading_id = Some(owned("dev-head-polish"));
            t.project_id = Some(owned("dev-proj-release"));
            t.significance = Some(7);
            t.fuel_cost = Some(15);
        t
    } else if k == 9 {
        let mut t = blank_seed("dev-week-3", "Оплатить интернет", created, 9);
            t.deadline = Some(day(today, 3));
            t.reminder_date = Some(moment_at(today, 3, 9, 0));
            t.status = Status::Todo;
            t.project_id = Some(owned("dev-proj-home"));
        t
    } else if k == 10 {
        let mut t = blank_seed("dev-week-4", "Купить подарок Маше", created, 10);
            t.scheduled_date = Some(day(today, 4));
            t.status = Status::Todo;
            t.area_id = Some(owned("dev-area-life"));
            t.tag_ids.push(owned("dev-tag-home"));
        t
    } else if k == 11 {
        let mut t = blank_seed("dev-recurring-1", "Поливать цветы", created, 11);
            t.scheduled_date = Some(day(today, 0));
            t.status = Status::Todo;
            t.area_id = Some(owned("dev-area-life"));
            let mut days: Vec<u8> = Vec::new();
            days.push(1);
            days.push(3);
            days.push(5);
            proof {
                assert(days@ =~= seq![1u8, 3u8, 5u8]);
            }
            t.recurrence = Some(RecurrenceRule { frequency: 1, interval: 1, recurrence_type: 0, days_of_week: days });
        t
    } else if k == 12 {
        let mut t = blank_seed("dev-next-week-1", "Запланировать отпуск", created, 12);
            t.priority = 2;
            t.scheduled_date = Some(day(today, 8));
            t.status = Status::Todo;
        t
    } else if k == 13 {
        let mut t = blank_seed("dev-someday-1", "Собрать домашний кинотеатр", created, 13);
            t.is_someday = true;
            t.status = Status::Deferred;
            t.project_id = Some(owned("dev-proj-someday"));
        t
    } else if k == 14 {
        let mut t = blank_seed("dev-done-today", "Утренняя планёрка", created, 14);
            t.scheduled_date = Some(day(today, 0));
            t.status = Status::Done;
            t.is_completed = true;
            t.completed_at = Some(moment_at(today, 0, 9, 30));
        t
    } else if k == 15 {
        let mut t = blank_seed("dev-done-yesterday", "Позвонить в банк", created, 15);
            t.status = Status::Done;
            t.is_completed = true;
            t.completed_at = Some(moment_at(today, -1, 14, 0));
        t
    } else if k == 16 {
        let mut t = blank_seed("dev-canceled-1", "Встреча с брокером", created, 16);
            t.scheduled_date = Some(day(today, 1));
            t.status = Status::Canceled;
            t.completed_at = Some(moment_at(today, 0, 11, 0));
            t.is_cancelled = true;
        t
    } else {
        let mut t = blank_seed("dev-trash-1", "Черновик: старый план переезда", created, 17);
        t.is_trashed = true;
        t
    }
}

/// The demonstration list: the seeded tasks in order, all created at
/// `created`, each in its place of the list.
pub open spec fn seeded_todos(v: Seq<Todo>, today: CivilDate, created: Seq<char>) -> bool {
    &&& v.len() == 18
    &&& forall|k: int|
        0 <= k < 18 ==> seed_todo_spec(#[trigger] v[k], today, k) && v[k].created_at@ == created
            && v[k].sort_order == k
}

/// The demonstration tasks around `today`, all stamped with one local
/// RFC 3339 creation time.
pub open spec fn seeded_todos_stamped(v: Seq<Todo>, today: CivilDate) -> bool {
    exists|created: Seq<char>| rfc3339_shaped(created) && #[trigger] seeded_todos(v, today, created)
}

/// The clock-reading seeding on `today`: the tasks around it, or `None`
/// exactly where it lies in chrono's first or last year.
pub open spec fn todos_seeded_on(r: Option<Vec<Todo>>, today: CivilDate) -> bool {
    match r {
        Some(v) => seed_day(today) && seeded_todos_stamped(v@, today),
        None => valid_date(today) && !(MIN_YEAR < today.year < MAX_YEAR),
    }
}

/// The demonstration tasks around `today`, all created at `created`, each
/// in its place of the list.
pub fn seed_todos_on(today: CivilDate, created: &str) -> (r: Vec<Todo>)
    requires
        seed_day(today),
    ensures
        seeded_todos(r@, today, created@),
{
    let mut v: Vec<Todo> = Vec::new();
    let mut k: i32 = 0;
    while k < 18
        invariant
            0 <= k <= 18,
            seed_day(today),
            v@.len() == k,
            forall|j: int|
                0 <= j < k ==> seed_todo_spec(#[trigger] v@[j], today, j) && v@[j].created_at@
                    == created@ && v@[j].sort_order == j,
        decreases 18 - k,
    {
        v.push(seed_todo(k, today, created));
        k = k + 1;
    }
    v
}

/// The demonstration tasks around the machine's local day, stamped with
/// the local time; `None` on a day in chrono's first or last year, where
/// the day arithmetic can leave its range.
pub fn seed_todos() -> (r: Option<Vec<Todo>>)
    ensures
        exists|today: CivilDate| #[trigger] todos_seeded_on(r, today),
{
    let today = local_today();
    if !(MIN_YEAR < today.year && today.year < MAX_YEAR) {
        proof {
            assert(todos_seeded_on(None, today));
        }
        return None;
    }
    let created = local_now_rfc3339();
    let v = seed_todos_on(today, created.as_str());
    proof {
        assert(rfc3339_shaped(created@) && seed_day(today) && seeded_todos(v@, today, created@));
    }
    let r = Some(v);
    proof {
        assert(todos_seeded_on(r, today));
    }
    r
}

/// Seeded calendar event `k`.
pub open spec fn seed_event_spec(e: CalEvent, today: CivilDate, k: int) -> bool {
    if k == 0 {
        &&& e.id@ == "dev-event-standup"@
        &&& e.title@ == "Ежедневный стендап"@
        &&& Some(e.starts_at@) == shifted_iso(today, 0, 10, 0)
        &&& opt_view(e.ends_at) == shifted_iso(today, 0, 10, 30)
        &&& opt_view(e.location) == Some("Zoom"@)
    } else if k == 1 {
        &&& e.id@ == "dev-event-lunch"@
        &&& e.title@ == "Обед с Аней"@
        &&& Some(e.starts_at@) == shifted_iso(today, 0, 13, 0)
        &&& opt_view(e.ends_at) == shifted_iso(today, 0, 14, 0)
        &&& opt_view(e.location) == Some("Кафе на углу"@)
    } else if k == 2 {
        &&& e.id@ == "dev-event-gym"@
        &&& e.title@ == "Спортзал"@
        &&& Some(e.starts_at@) == shifted_iso(today, 0, 18, 30)
        &&& opt_view(e.ends_at) == shifted_iso(today, 0, 19, 30)
        &&& e.location is None
    } else if k == 3 {
        &&& e.id@ == "dev-event-design-review"@
        &&& e.title@ == "Дизайн-ревью"@
        &&& Some(e.starts_at@) == shifted_iso(today, 1, 11, 0)
        &&& opt_view(e.ends_at) == shifted_iso(today, 1, 12, 30)
        &&& opt_view(e.location) == Some("Переговорка 2"@)
    } else if k == 4 {
        &&& e.id@ == "dev-event-one-on-one"@
        &&& e.title@ == "1:1 с руководителем"@
        &&& Some(e.starts_at@) == shifted_iso(today, 2, 15, 0)
        &&& opt_view(e.ends_at) == shifted_iso(today, 2, 16, 0)
        &&& e.location is None
    } else if k == 5 {
        &&& e.id@ == "dev-event-planning"@
        &&& e.title@ == "Планирование спринта"@
        &&& Some(e.starts_at@) == shifted_iso(today, 3, 9, 0)
        &&& opt_view(e.ends_at) == shifted_iso(today, 3, 10, 30)
        &&& opt_view(e.location) == Some("Zoom"@)
    } else if k == 6 {
        &&& e.id@ == "dev-event-demo"@
        &&& e.title@ == "Демо заказчику"@
        &&& Some(e.starts_at@) == shifted_iso(today, 4, 17, 0)
        &&& opt_view(e.ends_at) == shifted_iso(today, 4, 18, 0)
        &&& e.location is None
    } else if k == 7 {
        &&& e.id@ == "dev-event-webinar"@
        &&& e.title@ == "Вебинар по Rust"@
        &&& Some(e.starts_at@) == shifted_iso(today, 5, 12, 0)
        &&& opt_view(e.ends_at) == shifted_iso(today, 5, 13, 0)
        &&& e.location is None
    } else if k == 8 {
        &&& e.id@ == "dev-event-strategy"@
        &&& e.title@ == "Стратегическая сессия"@
        &&& Some(e.starts_at@) == shifted_iso(today, 8, 10, 0)
        &&& opt_view(e.ends_at) == shifted_iso(today, 8, 16, 0)
        &&& opt_view(e.location) == Some("Офис"@)
    } else {
        false
    }
}

/// The demonstration calendar around `today`.
pub open spec fn seeded_events(v: Seq<CalEvent>, today: CivilDate) -> bool {
    &&& v.len() == 9
    &&& forall|k: int| 0 <= k < 9 ==> seed_event_spec(#[trigger] v[k], today, k)
}

fn event(id: &str, title: &str, today: CivilDate, start: (i64, u32, u32), end: (i64, u32, u32), location: Option<&str>) -> (e: CalEvent)
    requires
        seed_day(today),
        -365 <= start.0 <= 365,
        -365 <= end.0 <= 365,
    ensures
        e.id@ == id@,
        e.title@ == title@,
        Some(e.starts_at@) == shifted_iso(today, start.0 as int, start.1 as nat, start.2 as nat),
        opt_view(e.ends_at) == shifted_iso(today, end.0 as int, end.1 as nat, end.2 as nat),
        opt_view(e.location) == match location {
            Some(l) => Some(l@),
            None => None,
        },
{
    CalEvent {
        id: owned(id),
        title: owned(title),
        starts_at: moment_at(today, start.0, start.1, start.2),
        ends_at: Some(moment_at(today, end.0, end.1, end.2)),
        location: match location {
            Some(l) => Some(owned(l)),
            None => None,
        },
    }
}

/// The demonstration calendar events around `today`.
pub fn seed_events_on(today: CivilDate) -> (r: Vec<CalEvent>)
    requires
        seed_day(today),
    ensures
        seeded_events(r@, today),
{
    let mut v: Vec<CalEvent> = Vec::new();
    v.push(event("dev-event-standup", "Ежедневный стендап", today, (0, 10, 0), (0, 10, 30), Some("Zoom")));
    v.push(event("dev-event-lunch", "Обед с Аней", today, (0, 13, 0), (0, 14, 0), Some("Кафе на углу")));
    v.push(event("dev-event-gym", "Спортзал", today, (0, 18, 30), (0, 19, 30), None));
    v.push(event("dev-event-design-review", "Дизайн-ревью", today, (1, 11, 0), (1, 12, 30), Some("Переговорка 2")));
    v.push(event("dev-event-one-on-one", "1:1 с руководителем", today, (2, 15, 0), (2, 16, 0), None));
    v.push(event("dev-event-planning", "Планирование спринта", today, (3, 9, 0), (3, 10, 30), Some("Zoom")));
    v.push(event("dev-event-demo", "Демо заказчику", today, (4, 17, 0), (4, 18, 0), None));
    v.push(event("dev-event-webinar", "Вебинар по Rust", today, (5, 12, 0), (5, 13, 0), None));
    v.push(event("dev-event-strategy", "Стратегическая сессия", today, (8, 10, 0), (8, 16, 0), Some("Офис")));
    proof {
        assert(forall|k: int| 0 <= k < 9 ==> seed_event_spec(#[trigger] v@[k], today, k));
    }
    v
}


/// The demonstration projects around `today`.
pub open spec fn seeded_projects(v: Seq<Project>, today: CivilDate) -> bool {
    &&& v.len() == 3
    &&& v[0].id@ == "dev-proj-release"@ && v[0].title@ == "Релиз Agenda 1.0"@ && v[0].status == 0
        && opt_view(v[0].deadline) == shifted_key(today, 10) && v[0].sort_order == 0
        && opt_view(v[0].area_id) == Some("dev-area-work"@)
    &&& v[1].id@ == "dev-proj-home"@ && v[1].title@ == "Дом и быт"@ && v[1].status == 0
        && v[1].deadline is None && v[1].sort_order == 1 && opt_view(v[1].area_id) == Some(
        "dev-area-life"@)
    &&& v[2].id@ == "dev-proj-someday"@ && v[2].title@ == "Путешествие в Японию"@ && v[2].status
        == 1 && v[2].deadline is None && v[2].sort_order == 2 && opt_view(v[2].area_id) == Some(
        "dev-area-life"@)
}

/// The demonstration projects around `today`.
pub fn seed_projects_on(today: CivilDate) -> (r: Vec<Project>)
    requires
        seed_day(today),
    ensures
        seeded_projects(r@, today),
{
    let mut v: Vec<Project> = Vec::new();
    v.push(Project {
        id: owned("dev-proj-release"),
        title: owned("Релиз Agenda 1.0"),
        status: 0,
        deadline: Some(day(today, 10)),
        sort_order: 0,
        area_id: Some(owned("dev-area-work")),
    });
    v.push(Project {
        id: owned("dev-proj-home"),
        title: owned("Дом и быт"),
        status: 0,
        deadline: None,
        sort_order: 1,
        area_id: Some(owned("dev-area-life")),
    });
    v.push(Project {
        id: owned("dev-proj-someday"),
        title: owned("Путешествие в Японию"),
        status: 1,
        deadline: None,
        sort_order: 2,
        area_id: Some(owned("dev-area-life")),
    });
    v
}

/// The demonstration projects around the machine's local day; `None` on a
/// day in chrono's first or last year.
pub fn seed_projects() -> (r: Option<Vec<Project>>)
    ensures
        exists|today: CivilDate| #[trigger] projects_seeded_on(r, today),
{
    let today = local_today();
    if !(MIN_YEAR < today.year && today.year < MAX_YEAR) {
        proof {
            assert(projects_seeded_on(None, today));
        }
        return None;
    }
    let v = seed_projects_on(today);
    let r = Some(v);
    proof {
        assert(projects_seeded_on(r, today));
    }
    r
}

/// The clock-reading seeding on `today`: the projects around it, or `None`
/// exactly where it lies in chrono's first or last year.
pub open spec fn projects_seeded_on(r: Option<Vec<Project>>, today: CivilDate) -> bool {
    match r {
        Some(v) => seed_day(today) && seeded_projects(v@, today),
        None => valid_date(today) && !(MIN_YEAR < today.year < MAX_YEAR),
    }
}

pub open spec fn seeded_areas(v: Seq<Area>) -> bool {
    &&& v.len() == 2
    &&& v[0].id@ == "dev-area-work"@ && v[0].title@ == "Работа"@ && v[0].sort_order == 0
    &&& v[1].id@ == "dev-area-life"@ && v[1].title@ == "Личное"@ && v[1].sort_order == 1
}

pub open spec fn seeded_tags(v: Seq<Tag>) -> bool {
    &&& v.len() == 3
    &&& v[0].id@ == "dev-tag-urgent"@ && v[0].title@ == "срочно"@ && v[0].color@ == "red"@
    &&& v[1].id@ == "dev-tag-focus"@ && v[1].title@ == "фокус"@ && v[1].color@ == "blue"@
    &&& v[2].id@ == "dev-tag-home"@ && v[2].title@ == "дом"@ && v[2].color@ == "green"@
}

pub open spec fn seeded_headings(v: Seq<Heading>) -> bool {
    &&& v.len() == 2
    &&& v[0].id@ == "dev-head-prep"@ && v[0].title@ == "Подготовка"@ && v[0].sort_order == 0
        && v[0].project_id@ == "dev-proj-release"@
    &&& v[1].id@ == "dev-head-polish"@ && v[1].title@ == "Полировка"@ && v[1].sort_order == 1
        && v[1].project_id@ == "dev-proj-release"@
}

/// The demonstration areas.
pub fn seed_areas() -> (r: Vec<Area>)
    ensures
        seeded_areas(r@),
{
    let mut v: Vec<Area> = Vec::new();
    v.push(Area { id: owned("dev-area-work"), title: owned("Работа"), sort_order: 0 });
    v.push(Area { id: owned("dev-area-life"), title: owned("Личное"), sort_order: 1 });
    v
}

/// The demonstration tags.
pub fn seed_tags() -> (r: Vec<Tag>)
    ensures
        seeded_tags(r@),
{
    let mut v: Vec<Tag> = Vec::new();
    v.push(Tag { id: owned("dev-tag-urgent"), title: owned("срочно"), color: owned("red") });
    v.push(Tag { id: owned("dev-tag-focus"), title: owned("фокус"), color: owned("blue") });
    v.push(Tag { id: owned("dev-tag-home"), title: owned("дом"), color: owned("green") });
    v
}

/// The demonstration headings of the release project.
pub fn seed_headings() -> (r: Vec<Heading>)
    ensures
        seeded_headings(r@),
{
    let mut v: Vec<Heading> = Vec::new();
    v.push(Heading {
        id: owned("dev-head-prep"),
        title: owned("Подготовка"),
        sort_order: 0,
        project_id: owned("dev-proj-release"),
    });
    v.push(Heading {
        id: owned("dev-head-polish"),
        title: owned("Полировка"),
        sort_order: 1,
        project_id: owned("dev-proj-release"),
    });
    v
}

/// The demonstration calendar events around the machine's local day;
/// `None` on a day in chrono's first or last year.
pub fn seed_events() -> (r: Option<Vec<CalEvent>>)
    ensures
        exists|today: CivilDate| #[trigger] events_seeded_on(r, today),
{
    let today = local_today();
    if !(MIN_YEAR < today.year && today.year < MAX_YEAR) {
        proof {
            assert(events_seeded_on(None, today));
        }
        return None;
    }
    let v = seed_events_on(today);
    let r = Some(v);
    proof {
        assert(events_seeded_on(r, today));
    }
    r
}

/// The clock-reading seeding on `today`: the events around it, or `None`
/// exactly where it lies in chrono's first or last year.
pub open spec fn events_seeded_on(r: Option<Vec<CalEvent>>, today: CivilDate) -> bool {
    match r {
        Some(v) => seed_day(today) && seeded_events(v@, today),
        None => valid_date(today) && !(MIN_YEAR < today.year < MAX_YEAR),
    }
}


/// The seeded tasks' ids, in order.
pub open spec fn seed_ids() -> Seq<Seq<char>> {
    seq!["dev-inbox-1"@, "dev-inbox-2"@, "dev-inbox-3"@, "dev-today-1"@, "dev-today-2"@, "dev-today-evening"@, "dev-overdue-1"@, "dev-checklist-1"@, "dev-week-2"@, "dev-week-3"@, "dev-week-4"@, "dev-recurring-1"@, "dev-next-week-1"@, "dev-someday-1"@, "dev-done-today"@, "dev-done-yesterday"@, "dev-canceled-1"@, "dev-trash-1"@]
}

/// What tells the seeded ids apart: length, fifth, sixth and last character.
spec fn id_print(s: Seq<char>) -> (int, char, char, char) {
    (s.len() as int, s[4], s[5], s[s.len() - 1])
}

proof fn lemma_seed_ids_distinct()
    ensures
        forall|i: int, j: int| 0 <= i < j < 18 ==> seed_ids()[i] != seed_ids()[j],
{
    reveal_strlit("dev-inbox-1");
    reveal_strlit("dev-inbox-2");
    reveal_strlit("dev-inbox-3");
    reveal_strlit("dev-today-1");
    reveal_strlit("dev-today-2");
    reveal_strlit("dev-today-evening");
    reveal_strlit("dev-overdue-1");
    reveal_strlit("dev-checklist-1");
    reveal_strlit("dev-week-2");
    reveal_strlit("dev-week-3");
    reveal_strlit("dev-week-4");
    reveal_strlit("dev-recurring-1");
    reveal_strlit("dev-next-week-1");
    reveal_strlit("dev-someday-1");
    reveal_strlit("dev-done-today");
    reveal_strlit("dev-done-yesterday");
    reveal_strlit("dev-canceled-1");
    reveal_strlit("dev-trash-1");
    let ids = seed_ids();
    let prints = seq![(11int, 'i', 'n', '1'), (11, 'i', 'n', '2'), (11, 'i', 'n', '3'), (11, 't', 'o', '1'), (11, 't', 'o', '2'), (17, 't', 'o', 'g'), (13, 'o', 'v', '1'), (15, 'c', 'h', '1'), (10, 'w', 'e', '2'), (10, 'w', 'e', '3'), (10, 'w', 'e', '4'), (15, 'r', 'e', '1'), (15, 'n', 'e', '1'), (13, 's', 'o', '1'), (14, 'd', 'o', 'y'), (18, 'd', 'o', 'y'), (14, 'c', 'a', '1'), (11, 't', 'r', '1')];
    assert forall|k: int| 0 <= k < 18 implies id_print(#[trigger] ids[k]) == prints[k] by {
        assert(ids[k].len() >= 10);
    }
    assert forall|i: int, j: int| 0 <= i < j < 18 implies ids[i] != ids[j] by {
        assert(prints[i] != prints[j]);
        if ids[i] == ids[j] {
            assert(id_print(ids[i]) == id_print(ids[j]));
        }
    }
}

/// The demonstration data hangs together: the seeded tasks have distinct
/// ids and one creation stamp, and every project, area, tag and heading a
/// seeded task names is one of the seeded ones, a heading under the task's
/// own project.
pub proof fn law_seed_references(todos: Seq<Todo>, today: CivilDate, created: Seq<char>, projects: Seq<Project>, areas: Seq<Area>, tags: Seq<Tag>, headings: Seq<Heading>)
    requires
        seeded_todos(todos, today, created),
        seeded_projects(projects, today),
        seeded_areas(areas),
        seeded_tags(tags),
        seeded_headings(headings),
    ensures
        forall|i: int, j: int| 0 <= i < j < todos.len() ==> todos[i].id@ != todos[j].id@,
        forall|i: int| 0 <= i < todos.len() ==> #[trigger] todos[i].created_at@ == created,
        forall|i: int| 0 <= i < todos.len() && todos[i].project_id is Some ==> exists|k: int|
            0 <= k < projects.len() && #[trigger] projects[k].id@ == todos[i].project_id.unwrap()@,
        forall|i: int| 0 <= i < todos.len() && todos[i].area_id is Some ==> exists|k: int|
            0 <= k < areas.len() && #[trigger] areas[k].id@ == todos[i].area_id.unwrap()@,
        forall|i: int, m: int| 0 <= i < todos.len() && 0 <= m < todos[i].tag_ids@.len() ==> exists|k: int|
            0 <= k < tags.len() && #[trigger] tags[k].id@ == (#[trigger] todos[i].tag_ids@[m])@,
        forall|i: int| 0 <= i < todos.len() && todos[i].heading_id is Some ==> exists|k: int|
            0 <= k < headings.len() && #[trigger] headings[k].id@ == todos[i].heading_id.unwrap()@
                && opt_view(todos[i].project_id) == Some(headings[k].project_id@),
{
    lemma_seed_ids_distinct();
    assert forall|k: int| 0 <= k < 18 implies #[trigger] todos[k].id@ == seed_ids()[k] by {
        assert(seed_todo_spec(todos[k], today, k));
    }
    assert forall|i: int| 0 <= i < todos.len() && todos[i].project_id is Some implies exists|k: int|
        0 <= k < projects.len() && #[trigger] projects[k].id@ == todos[i].project_id.unwrap()@ by {
        assert(seed_todo_spec(todos[i], today, i));
        assert(projects[0].id@ == "dev-proj-release"@);
        assert(projects[1].id@ == "dev-proj-home"@);
        assert(projects[2].id@ == "dev-proj-someday"@);
    }
    assert forall|i: int| 0 <= i < todos.len() && todos[i].area_id is Some implies exists|k: int|
        0 <= k < areas.len() && #[trigger] areas[k].id@ == todos[i].area_id.unwrap()@ by {
        assert(seed_todo_spec(todos[i], today, i));
        assert(areas[0].id@ == "dev-area-work"@);
        assert(areas[1].id@ == "dev-area-life"@);
    }
    assert forall|i: int, m: int| 0 <= i < todos.len() && 0 <= m < todos[i].tag_ids@.len() implies exists|k: int|
        0 <= k < tags.len() && #[trigger] tags[k].id@ == (#[trigger] todos[i].tag_ids@[m])@ by {
        assert(seed_todo_spec(todos[i], today, i));
        assert(tags[0].id@ == "dev-tag-urgent"@);
        assert(tags[1].id@ == "dev-tag-focus"@);
        assert(tags[2].id@ == "dev-tag-home"@);
    }
    assert forall|i: int| 0 <= i < todos.len() && todos[i].heading_id is Some implies exists|k: int|
        0 <= k < headings.len() && #[trigger] headings[k].id@ == todos[i].heading_id.unwrap()@
            && opt_view(todos[i].project_id) == Some(headings[k].project_id@) by {
        assert(seed_todo_spec(todos[i], today, i));
        assert(headings[0].id@ == "dev-head-prep"@);
        assert(headings[1].id@ == "dev-head-polish"@);
    }
}

} // verus!
