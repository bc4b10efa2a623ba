//! The entries that schedule a task's reminder, as lines for a `remind`
//! file.
use vstd::prelude::*;
use crate::record::{Reminder, ReminderView, Task, TaskError};
use crate::stamp::{month_name, month_name_of, Stamp};
use crate::store::{extends, Store};
use crate::task::save_outcome;
use crate::text::{all_digits, chars_of, dec, parse_digits, push_dec, push_str, string_of, value_of};

verus! {

/// A month written as an unsigned number, with an optional leading `+`.
pub open spec fn parse_count(t: Seq<char>) -> Option<u32> {
    let d = if t.len() > 0 && t[0] == '+' {
        t.skip(1)
    } else {
        t
    };
    if 1 <= d.len() <= 18 && all_digits(d) && value_of(d) <= u32::MAX {
        Some(value_of(d) as u32)
    } else {
        None
    }
}

/// `day month-name year`; a month that is not a number from 1 to 12 gives
/// an empty name.
pub open spec fn reminder_date(m: ReminderView) -> Seq<char> {
    m.day + " "@ + month_name(
        match parse_count(m.month) {
            Some(v) => v,
            None => 0,
        },
    ) + " "@ + m.year
}

pub open spec fn time_part(m: ReminderView) -> Seq<char> {
    if m.time.len() == 0 {
        seq![]
    } else {
        "AT "@ + m.time
    }
}

pub open spec fn notice_part(m: ReminderView) -> Seq<char> {
    if m.notice > 0 {
        "-"@ + dec(m.notice as nat)
    } else {
        seq![]
    }
}

/// The two lines for a task's reminder: one shows a message, one puts the
/// task on the `Today` list.
pub open spec fn reminder_entries(m: ReminderView, task_name: Seq<char>) -> Seq<char> {
    let head = "REM "@ + reminder_date(m) + " "@ + time_part(m) + " "@ + notice_part(m);
    head + " MSG %\""@ + task_name + "%\" [t()] \n"@ + head + " RUN (toduit add \""@ + task_name
        + "\" Today) & \n"@
}

fn parse_count_exec(t: &str) -> (r: Option<u32>)
    ensures
        r == parse_count(t@),
{
    let tc = chars_of(t);
    let d = if tc.len() > 0 && tc[0] == '+' {
        vstd::slice::slice_subrange(tc.as_slice(), 1, tc.len())
    } else {
        tc.as_slice()
    };
    assert(d@ == if t@.len() > 0 && t@[0] == '+' {
        t@.skip(1)
    } else {
        t@
    });
    match parse_digits(d) {
        Some(v) => if v <= 0xffff_ffff {
            Some(v as u32)
        } else {
            None
        },
        None => None,
    }
}

impl Reminder {
    /// The lines to add to the reminder file for task `task_name`.
    pub fn create(&self, task_name: &str) -> (r: String)
        ensures
            r@ == reminder_entries(self@, task_name@),
    {
        let mut h: Vec<char> = Vec::new();
        push_str(&mut h, "REM ");
        push_str(&mut h, self.day.as_str());
        push_str(&mut h, " ");
        let m = match parse_count_exec(self.month.as_str()) {
            Some(v) => v,
            None => 0,
        };
        let name = month_name_of(m);
        push_str(&mut h, name.as_str());
        push_str(&mut h, " ");
        push_str(&mut h, self.year.as_str());
        push_str(&mut h, " ");
        if self.time.unicode_len() > 0 {
            push_str(&mut h, "AT ");
            push_str(&mut h, self.time.as_str());
        }
        push_str(&mut h, " ");
        if self.notice > 0 {
            push_str(&mut h, "-");
            push_dec(&mut h, self.notice as u64);
        }
        let ghost head = h@;
        assert(head == "REM "@ + reminder_date(self@) + " "@ + time_part(self@) + " "@ + notice_part(
            self@,
        ));
        let mut out: Vec<char> = Vec::new();
        crate::text::push_all(&mut out, h.as_slice());
        push_str(&mut out, " MSG %\"");
        push_str(&mut out, task_name);
        push_str(&mut out, "%\" [t()] \n");
        crate::text::push_all(&mut out, h.as_slice());
        push_str(&mut out, " RUN (toduit add \"");
        push_str(&mut out, task_name);
        push_str(&mut out, "\" Today) & \n");
        assert(out@ == reminder_entries(self@, task_name@));
        string_of(out.as_slice())
    }
}

pub open spec fn with_reminder(t: crate::record::Record, m: ReminderView) -> crate::record::Record {
    crate::record::Record { remind: Some(m), ..t }
}

impl Task {
    /// Attaches a reminder to the task and saves it. The reminder's lines
    /// (`Reminder::create`) go to the reminder file before this is called.
    pub fn set_reminder(
        &self,
        store: &mut Store,
        month: &str,
        day: &str,
        year: &str,
        time: &str,
        notice: &u32,
        now: Stamp,
    ) -> (r: Result<(), TaskError>)
        requires
            old(store).wf(),
        ensures
            final(store).wf(),
            extends(old(store)@, final(store)@),
            final(store)@.dirs == old(store)@.dirs,
            exists|fresh: Seq<char>|
                fresh.len() == 36 && (final(store)@.files, r) == save_outcome(
                    old(store)@.files,
                    with_reminder(
                        self@,
                        ReminderView {
                            month: month@,
                            day: day@,
                            year: year@,
                            time: time@,
                            notice: *notice,
                        },
                    ),
                    fresh,
                    now,
                ),
    {
        let mut task = self.duplicate();
        task.remind = Some(Reminder::new(month, day, year, time, notice));
        task.save(store, now)
    }
}

} // verus!
