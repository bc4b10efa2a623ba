//! The task record, its reminder, and their mathematical views.
use vstd::prelude::*;
use crate::stamp::Stamp;

verus! {

/// Why a lookup or a load failed.
#[derive(Clone, Copy, Debug, PartialEq, Eq, Structural)]
pub enum TaskError {
    /// The task, its file or its list is absent.
    NotFound,
    /// The file has no header/body boundary, or a header field cannot be read.
    Parse,
}

/// A reminder attached to a task; blank strings stand for unset parts.
#[derive(Clone, Debug)]
pub struct Reminder {
    pub month: String,
    pub day: String,
    pub year: String,
    pub time: String,
    pub notice: u32,
}

/// A reminder as plain values.
pub struct ReminderView {
    pub month: Seq<char>,
    pub day: Seq<char>,
    pub year: Seq<char>,
    pub time: Seq<char>,
    pub notice: u32,
}

impl View for Reminder {
    type V = ReminderView;

    open spec fn view(&self) -> ReminderView {
        ReminderView {
            month: self.month@,
            day: self.day@,
            year: self.year@,
            time: self.time@,
            notice: self.notice,
        }
    }
}

/// One task: its identity, its place in the folder tree, its timestamps
/// and its flags.
#[derive(Clone, Debug)]
pub struct Task {
    pub id: String,
    pub task_name: String,
    pub project: String,
    pub path: String,
    pub created: Stamp,
    pub updated: Stamp,
    pub exclude_from_journal: Option<bool>,
    pub exclude_from_logging: Option<bool>,
    pub remind: Option<Reminder>,
}

/// A task as plain values: the view of `Task`.
pub struct Record {
    pub id: Seq<char>,
    pub task_name: Seq<char>,
    pub project: Seq<char>,
    pub path: Seq<char>,
    pub created: Stamp,
    pub updated: Stamp,
    pub exclude_from_journal: Option<bool>,
    pub exclude_from_logging: Option<bool>,
    pub remind: Option<ReminderView>,
}

pub open spec fn remind_view(r: Option<Reminder>) -> Option<ReminderView> {
    match r {
        Some(m) => Some(m@),
        None => None,
    }
}

impl View for Task {
    type V = Record;

    open spec fn view(&self) -> Record {
        Record {
            id: self.id@,
            task_name: self.task_name@,
            project: self.project@,
            path: self.path@,
            created: self.created,
            updated: self.updated,
            exclude_from_journal: self.exclude_from_journal,
            exclude_from_logging: self.exclude_from_logging,
            remind: remind_view(self.remind),
        }
    }
}

impl Record {
    /// Both timestamps are well formed.
    pub open spec fn wf(&self) -> bool {
        self.created.wf() && self.updated.wf()
    }
}

impl Reminder {
    /// A reminder from its parts.
    pub fn new(month: &str, day: &str, year: &str, time: &str, notice: &u32) -> (r: Reminder)
        ensures
            r@ == (ReminderView {
                month: month@,
                day: day@,
                year: year@,
                time: time@,
                notice: *notice,
            }),
    {
        Reminder {
            month: month.to_string(),
            day: day.to_string(),
            year: year.to_string(),
            time: time.to_string(),
            notice: *notice,
        }
    }

    /// A copy with the same view.
    pub fn duplicate(&self) -> (r: Reminder)
        ensures
            r@ == self@,
    {
        Reminder {
            month: self.month.clone(),
            day: self.day.clone(),
            year: self.year.clone(),
            time: self.time.clone(),
            notice: self.notice,
        }
    }
}

impl Task {
    /// A copy with the same view.
    pub fn duplicate(&self) -> (r: Task)
        ensures
            r@ == self@,
    {
        let remind = match &self.remind {
            Some(m) => Some(m.duplicate()),
            None => None,
        };
        Task {
            id: self.id.clone(),
            task_name: self.task_name.clone(),
            project: self.project.clone(),
            path: self.path.clone(),
            created: self.created,
            updated: self.updated,
            exclude_from_journal: self.exclude_from_journal,
            exclude_from_logging: self.exclude_from_logging,
            remind,
        }
    }
}

} // verus!
