//! The task file format: a header of `key: value` lines between an opening
//! `---` and a closing line that starts with `---`, then the free-form body.
//!
//! Text values are written double-quoted, with `\`, `"` and line breaks
//! escaped; flags as `true`, `false` or `~`; a reminder as an indented
//! block under `remind:`. Reading is lenient: plain (unquoted) values are
//! accepted, a missing `id` reads as empty, a missing `updated` as midnight
//! of the given day, a missing reminder part as blank.
use vstd::prelude::*;
use vstd::slice::slice_subrange;
use crate::record::{Record, Reminder, ReminderView, Task, TaskError};
use crate::stamp::{parse_stamp, parse_stamp_exec, push_stamp, stamp_text, Stamp};
use crate::text::{
    all_digits, chars_of, dec, find_from, first_from, lemma_first_from, index_of_char, index_of_char_from,
    lemma_index_of_char_bounds, lines_of, occurs_at, parse_digits, push_all, push_dec, push_str,
    starts_with, starts_with_exec, string_of, value_of,
};

verus! {

pub open spec fn esc_char(c: char) -> Seq<char> {
    if c == '\\' {
        seq!['\\', '\\']
    } else if c == '"' {
        seq!['\\', '"']
    } else if c == '\n' {
        seq!['\\', 'n']
    } else {
        seq![c]
    }
}

/// `s` with `\`, `"` and line breaks escaped by a backslash.
pub open spec fn escape(s: Seq<char>) -> Seq<char>
    decreases s.len(),
{
    if s.len() == 0 {
        seq![]
    } else {
        esc_char(s[0]) + escape(s.skip(1))
    }
}

/// Undoes `escape`: a backslash takes the next character as it is, `\n`
/// gives a line break; a lone final backslash stays.
pub open spec fn unescape(s: Seq<char>) -> Seq<char>
    decreases s.len(),
{
    if s.len() == 0 {
        seq![]
    } else if s[0] == '\\' && s.len() >= 2 {
        seq![if s[1] == 'n' { '\n' } else { s[1] }] + unescape(s.skip(2))
    } else {
        seq![s[0]] + unescape(s.skip(1))
    }
}

pub open spec fn quoted(s: Seq<char>) -> Seq<char> {
    seq!['"'] + escape(s) + seq!['"']
}

pub open spec fn text_line(tag: Seq<char>, v: Seq<char>) -> Seq<char> {
    tag + seq![' '] + quoted(v)
}

pub open spec fn flag_text(f: Option<bool>) -> Seq<char> {
    match f {
        None => "~"@,
        Some(true) => "true"@,
        Some(false) => "false"@,
    }
}

pub open spec fn flag_line(tag: Seq<char>, f: Option<bool>) -> Seq<char> {
    tag + seq![' '] + flag_text(f)
}

pub open spec fn remind_lines(m: Option<ReminderView>) -> Seq<Seq<char>> {
    match m {
        None => seq!["remind: ~"@],
        Some(m) => seq![
            "remind:"@,
            text_line("  month:"@, m.month),
            text_line("  day:"@, m.day),
            text_line("  year:"@, m.year),
            text_line("  time:"@, m.time),
            "  notice: "@ + dec(m.notice as nat),
        ],
    }
}

/// The header lines of a record, in their fixed order.
pub open spec fn header_lines(r: Record) -> Seq<Seq<char>> {
    seq![
        text_line("id:"@, r.id),
        text_line("task_name:"@, r.task_name),
        text_line("project:"@, r.project),
        text_line("path:"@, r.path),
        text_line("created:"@, stamp_text(r.created)),
        text_line("updated:"@, stamp_text(r.updated)),
        flag_line("exclude_from_journal:"@, r.exclude_from_journal),
        flag_line("exclude_from_logging:"@, r.exclude_from_logging),
    ] + remind_lines(r.remind)
}

/// Each line followed by a line break.
pub open spec fn join_lines(ls: Seq<Seq<char>>) -> Seq<char>
    decreases ls.len(),
{
    if ls.len() == 0 {
        seq![]
    } else {
        ls[0] + seq!['\n'] + join_lines(ls.skip(1))
    }
}

pub open spec fn header_text(r: Record) -> Seq<char> {
    join_lines(header_lines(r))
}

/// A whole task file: the header of `r` between its delimiters, then `body`.
pub open spec fn file_text(r: Record, body: Seq<char>) -> Seq<char> {
    "---\n"@ + header_text(r) + "---"@ + body
}

/// Splits a file at the first `---` and the first line after it that starts
/// with `---`: the header (with its line breaks) and the body after the
/// closing delimiter.
pub open spec fn split_file(t: Seq<char>) -> Option<(Seq<char>, Seq<char>)> {
    match first_from(t, "---"@, 0) {
        None => None,
        Some(a) => {
            let rest = t.skip(a + 3);
            match first_from(rest, "\n---"@, 0) {
                None => None,
                Some(b) => Some((rest.take(b + 1), rest.skip(b + 4))),
            }
        },
    }
}

pub open spec fn trim_start(s: Seq<char>) -> Seq<char>
    decreases s.len(),
{
    if s.len() > 0 && s[0] == ' ' {
        trim_start(s.skip(1))
    } else {
        s
    }
}

pub open spec fn trim_end(s: Seq<char>) -> Seq<char>
    decreases s.len(),
{
    if s.len() > 0 && s.last() == ' ' {
        trim_end(s.drop_last())
    } else {
        s
    }
}

/// The value written after a tag: spaces trimmed, then unquoted if it is
/// double-quoted.
pub open spec fn scalar(raw: Seq<char>) -> Seq<char> {
    let t = trim_end(trim_start(raw));
    if t.len() >= 2 && t[0] == '"' && t.last() == '"' {
        unescape(t.subrange(1, t.len() - 1))
    } else {
        t
    }
}

/// The value of the first line that starts with `tag`.
pub open spec fn field(ls: Seq<Seq<char>>, tag: Seq<char>) -> Option<Seq<char>>
    decreases ls.len(),
{
    if ls.len() == 0 {
        None
    } else if starts_with(ls[0], tag) {
        Some(scalar(ls[0].skip(tag.len() as int)))
    } else {
        field(ls.skip(1), tag)
    }
}

pub open spec fn text_or_empty(o: Option<Seq<char>>) -> Seq<char> {
    match o {
        Some(v) => v,
        None => seq![],
    }
}

pub open spec fn is_null(t: Seq<char>) -> bool {
    t == "~"@ || t == "null"@ || t.len() == 0
}

/// A flag: absent or null reads as unset; `None` when the value is not a flag.
pub open spec fn flag_of(o: Option<Seq<char>>) -> Option<Option<bool>> {
    match o {
        None => Some(None),
        Some(t) => if t == "true"@ {
            Some(Some(true))
        } else if t == "false"@ {
            Some(Some(false))
        } else if is_null(t) {
            Some(None)
        } else {
            None
        },
    }
}

/// A count: absent reads as 0; `None` when the value is not a `u32`.
pub open spec fn count_of(o: Option<Seq<char>>) -> Option<u32> {
    match o {
        None => Some(0),
        Some(t) => if 1 <= t.len() <= 10 && all_digits(t) && value_of(t) <= u32::MAX {
            Some(value_of(t) as u32)
        } else {
            None
        },
    }
}

/// The reminder block: `Some(None)` when there is none, `None` when it is malformed.
pub open spec fn remind_of(ls: Seq<Seq<char>>) -> Option<Option<ReminderView>> {
    match field(ls, "remind:"@) {
        None => Some(None),
        Some(t) => if t.len() == 0 {
            match count_of(field(ls, "  notice:"@)) {
                None => None,
                Some(n) => Some(
                    Some(
                        ReminderView {
                            month: text_or_empty(field(ls, "  month:"@)),
                            day: text_or_empty(field(ls, "  day:"@)),
                            year: text_or_empty(field(ls, "  year:"@)),
                            time: text_or_empty(field(ls, "  time:"@)),
                            notice: n,
                        },
                    ),
                ),
            }
        } else if is_null(t) {
            Some(None)
        } else {
            None
        },
    }
}

pub open spec fn stamp_of(o: Option<Seq<char>>) -> Option<Stamp> {
    match o {
        Some(t) => parse_stamp(t),
        None => None,
    }
}

pub open spec fn updated_of(ls: Seq<Seq<char>>, today: Stamp) -> Option<Stamp> {
    match field(ls, "updated:"@) {
        None => Some(today.midnight()),
        Some(t) => parse_stamp(t),
    }
}

/// The record a header holds; `None` when a required field (name,
/// project, path, creation time) is missing or a field cannot be read.
pub open spec fn decode_header(h: Seq<char>, today: Stamp) -> Option<Record> {
    let ls = lines_of(h);
    let name = field(ls, "task_name:"@);
    let project = field(ls, "project:"@);
    let path = field(ls, "path:"@);
    let created = stamp_of(field(ls, "created:"@));
    let updated = updated_of(ls, today);
    let fj = flag_of(field(ls, "exclude_from_journal:"@));
    let fl = flag_of(field(ls, "exclude_from_logging:"@));
    let rm = remind_of(ls);
    if name is Some && project is Some && path is Some && created is Some && updated is Some
        && fj is Some && fl is Some && rm is Some {
        Some(
            Record {
                id: text_or_empty(field(ls, "id:"@)),
                task_name: name->0,
                project: project->0,
                path: path->0,
                created: created->0,
                updated: updated->0,
                exclude_from_journal: fj->0,
                exclude_from_logging: fl->0,
                remind: rm->0,
            },
        )
    } else {
        None
    }
}

/// The record a whole file holds.
pub open spec fn decode_file(t: Seq<char>, today: Stamp) -> Option<Record> {
    match split_file(t) {
        Some(p) => decode_header(p.0, today),
        None => None,
    }
}

// ---- executable side ----

fn push_escaped(out: &mut Vec<char>, s: &[char])
    ensures
        final(out)@ == old(out)@ + escape(s@),
{
    let mut i: usize = 0;
    assert(s@.skip(0) == s@);
    while i < s.len()
        invariant
            i <= s@.len(),
            out@ + escape(s@.skip(i as int)) == old(out)@ + escape(s@),
        decreases s@.len() - i,
    {
        let c = s[i];
        assert(s@.skip(i as int).skip(1) == s@.skip(i + 1));
        assert(s@.skip(i as int)[0] == c);
        if c == '\\' {
            out.push('\\');
            out.push('\\');
        } else if c == '"' {
            out.push('\\');
            out.push('"');
        } else if c == '\n' {
            out.push('\\');
            out.push('n');
        } else {
            out.push(c);
        }
        i = i + 1;
    }
    assert(s@.skip(s@.len() as int) == Seq::<char>::empty());
}

fn push_text_line(out: &mut Vec<char>, tag: &str, v: &[char])
    ensures
        final(out)@ == old(out)@ + text_line(tag@, v@) + seq!['\n'],
{
    push_str(out, tag);
    out.push(' ');
    out.push('"');
    push_escaped(out, v);
    out.push('"');
    out.push('\n');
    assert(final(out)@ == old(out)@ + text_line(tag@, v@) + seq!['\n']);
}

fn push_flag_line(out: &mut Vec<char>, tag: &str, f: Option<bool>)
    ensures
        final(out)@ == old(out)@ + flag_line(tag@, f) + seq!['\n'],
{
    push_str(out, tag);
    out.push(' ');
    match f {
        None => push_str(out, "~"),
        Some(true) => push_str(out, "true"),
        Some(false) => push_str(out, "false"),
    }
    out.push('\n');
    assert(final(out)@ == old(out)@ + flag_line(tag@, f) + seq!['\n']);
}

proof fn lemma_join_push(ls: Seq<Seq<char>>, l: Seq<char>)
    ensures
        join_lines(ls.push(l)) == join_lines(ls) + l + seq!['\n'],
    decreases ls.len(),
{
    if ls.len() == 0 {
        assert(ls.push(l).skip(1) == Seq::<Seq<char>>::empty());
        assert(join_lines(ls.push(l)) == l + seq!['\n'] + join_lines(Seq::<Seq<char>>::empty()));
    } else {
        assert(ls.push(l).skip(1) == ls.skip(1).push(l));
        lemma_join_push(ls.skip(1), l);
    }
}

impl Task {
    /// The header lines of the task, each ended by a line break.
    #[verifier::rlimit(100)]
    pub fn encode_header(&self) -> (r: Vec<char>)
        ensures
            r@ == header_text(self@),
    {
        let mut out: Vec<char> = Vec::new();
        let ghost ls: Seq<Seq<char>> = seq![];
        let id = chars_of(self.id.as_str());
        push_text_line(&mut out, "id:", id.as_slice());
        proof {
            lemma_join_push(ls, text_line("id:"@, self.id@));
            ls = ls.push(text_line("id:"@, self.id@));
        }
        let name = chars_of(self.task_name.as_str());
        push_text_line(&mut out, "task_name:", name.as_slice());
        proof {
            lemma_join_push(ls, text_line("task_name:"@, self.task_name@));
            ls = ls.push(text_line("task_name:"@, self.task_name@));
        }
        let project = chars_of(self.project.as_str());
        push_text_line(&mut out, "project:", project.as_slice());
        proof {
            lemma_join_push(ls, text_line("project:"@, self.project@));
            ls = ls.push(text_line("project:"@, self.project@));
        }
        let path = chars_of(self.path.as_str());
        push_text_line(&mut out, "path:", path.as_slice());
        proof {
            lemma_join_push(ls, text_line("path:"@, self.path@));
            ls = ls.push(text_line("path:"@, self.path@));
        }
        let mut created: Vec<char> = Vec::new();
        push_stamp(&mut created, self.created);
        push_text_line(&mut out, "created:", created.as_slice());
        proof {
            lemma_join_push(ls, text_line("created:"@, stamp_text(self.created)));
            ls = ls.push(text_line("created:"@, stamp_text(self.created)));
        }
        let mut updated: Vec<char> = Vec::new();
        push_stamp(&mut updated, self.updated);
        push_text_line(&mut out, "updated:", updated.as_slice());
        proof {
            lemma_join_push(ls, text_line("updated:"@, stamp_text(self.updated)));
            ls = ls.push(text_line("updated:"@, stamp_text(self.updated)));
        }
        push_flag_line(&mut out, "exclude_from_journal:", self.exclude_from_journal);
        proof {
            lemma_join_push(ls, flag_line("exclude_from_journal:"@, self.exclude_from_journal));
            ls = ls.push(flag_line("exclude_from_journal:"@, self.exclude_from_journal));
        }
        push_flag_line(&mut out, "exclude_from_logging:", self.exclude_from_logging);
        proof {
            lemma_join_push(ls, flag_line("exclude_from_logging:"@, self.exclude_from_logging));
            ls = ls.push(flag_line("exclude_from_logging:"@, self.exclude_from_logging));
        }
        match &self.remind {
            None => {
                push_str(&mut out, "remind: ~");
                out.push('\n');
                proof {
                    lemma_join_push(ls, "remind: ~"@);
                    ls = ls.push("remind: ~"@);
                }
            },
            Some(m) => {
                push_str(&mut out, "remind:");
                out.push('\n');
                proof {
                    lemma_join_push(ls, "remind:"@);
                    ls = ls.push("remind:"@);
                }
                let v = chars_of(m.month.as_str());
                push_text_line(&mut out, "  month:", v.as_slice());
                proof {
                    lemma_join_push(ls, text_line("  month:"@, m.month@));
                    ls = ls.push(text_line("  month:"@, m.month@));
                }
                let v = chars_of(m.day.as_str());
                push_text_line(&mut out, "  day:", v.as_slice());
                proof {
                    lemma_join_push(ls, text_line("  day:"@, m.day@));
                    ls = ls.push(text_line("  day:"@, m.day@));
                }
                let v = chars_of(m.year.as_str());
                push_text_line(&mut out, "  year:", v.as_slice());
                proof {
                    lemma_join_push(ls, text_line("  year:"@, m.year@));
                    ls = ls.push(text_line("  year:"@, m.year@));
                }
                let v = chars_of(m.time.as_str());
                push_text_line(&mut out, "  time:", v.as_slice());
                proof {
                    lemma_join_push(ls, text_line("  time:"@, m.time@));
                    ls = ls.push(text_line("  time:"@, m.time@));
                }
                push_str(&mut out, "  notice: ");
                push_dec(&mut out, m.notice as u64);
                out.push('\n');
                proof {
                    lemma_join_push(ls, "  notice: "@ + dec(m.notice as nat));
                    ls = ls.push("  notice: "@ + dec(m.notice as nat));
                }
            },
        }
        assert(ls == header_lines(self@));
        out
    }
}

fn trim_exec(s: &[char]) -> (r: Vec<char>)
    ensures
        r@ == trim_end(trim_start(s@)),
{
    let n = s.len();
    let mut i: usize = 0;
    assert(s@.skip(0) == s@);
    while i < n && s[i] == ' '
        invariant
            i <= n == s@.len(),
            trim_start(s@) == trim_start(s@.skip(i as int)),
        decreases n - i,
    {
        assert(s@.skip(i as int).skip(1) == s@.skip(i + 1));
        i = i + 1;
    }
    let t = slice_subrange(s, i, n);
    assert(t@ == s@.skip(i as int));
    assert(trim_start(s@) == t@);
    let mut j: usize = t.len();
    assert(t@.take(j as int) == t@);
    while j > 0 && t[j - 1] == ' '
        invariant
            j <= t@.len(),
            trim_end(t@) == trim_end(t@.take(j as int)),
        decreases j,
    {
        assert(t@.take(j as int).drop_last() == t@.take(j - 1));
        j = j - 1;
    }
    let u = slice_subrange(t, 0, j);
    let mut out: Vec<char> = Vec::new();
    push_all(&mut out, u);
    assert(out@ == t@.take(j as int));
    out
}

fn unescape_exec(s: &[char]) -> (r: Vec<char>)
    ensures
        r@ == unescape(s@),
{
    let mut out: Vec<char> = Vec::new();
    let mut i: usize = 0;
    assert(s@.skip(0) == s@);
    while i < s.len()
        invariant
            i <= s@.len(),
            out@ + unescape(s@.skip(i as int)) == unescape(s@),
        decreases s@.len() - i,
    {
        let ghost rest = s@.skip(i as int);
        assert(rest[0] == s@[i as int]);
        if s[i] == '\\' && i + 1 < s.len() {
            assert(rest[1] == s@[i + 1]);
            assert(rest.skip(2) == s@.skip(i + 2));
            let c = s[i + 1];
            out.push(if c == 'n' { '\n' } else { c });
            i = i + 2;
        } else {
            assert(rest.skip(1) == s@.skip(i + 1));
            out.push(s[i]);
            i = i + 1;
        }
    }
    assert(s@.skip(s@.len() as int) == Seq::<char>::empty());
    out
}

fn scalar_exec(raw: &[char]) -> (r: Vec<char>)
    ensures
        r@ == scalar(raw@),
{
    let t = trim_exec(raw);
    let n = t.len();
    if n >= 2 && t[0] == '"' && t[n - 1] == '"' {
        let inner = slice_subrange(t.as_slice(), 1, n - 1);
        unescape_exec(inner)
    } else {
        t
    }
}

/// The value of the first line of `h` that starts with `tag`.
fn field_exec(h: &[char], tag: &str) -> (r: Option<Vec<char>>)
    ensures
        r is Some <==> field(lines_of(h@), tag@) is Some,
        r matches Some(v) ==> v@ == field(lines_of(h@), tag@)->0,
{
    let tg = chars_of(tag);
    let n = h.len();
    let mut pos: usize = 0;
    assert(h@.skip(0) == h@);
    while pos < n
        invariant
            pos <= n == h@.len(),
            tg@ == tag@,
            field(lines_of(h@), tag@) == field(lines_of(h@.skip(pos as int)), tag@),
        decreases n - pos,
    {
        let end = index_of_char_from(h, '\n', pos);
        let ghost rest = h@.skip(pos as int);
        proof {
            lemma_index_of_char_bounds(rest, '\n');
        }
        let line = slice_subrange(h, pos, end);
        assert(line@ == rest.take(index_of_char(rest, '\n')));
        let ghost ls = lines_of(rest);
        if end < n {
            assert(rest.skip(index_of_char(rest, '\n') + 1) == h@.skip(end + 1));
            assert(ls == seq![line@] + lines_of(h@.skip(end + 1)));
        } else {
            assert(rest.take(index_of_char(rest, '\n')) == rest);
            assert(ls == seq![line@]);
        }
        assert(ls[0] == line@);
        if starts_with_exec(line, tg.as_slice()) {
            let v = slice_subrange(line, tg.len(), line.len());
            return Some(scalar_exec(v));
        }
        if end == n {
            assert(ls.skip(1) == Seq::<Seq<char>>::empty());
            assert(field(Seq::<Seq<char>>::empty(), tag@) is None);
            return None;
        }
        assert(ls.skip(1) == lines_of(h@.skip(end + 1)));
        pos = end + 1;
    }
    assert(h@.skip(pos as int) == Seq::<char>::empty());
    None
}

fn same_text(a: &[char], b: &str) -> (r: bool)
    ensures
        r == (a@ == b@),
{
    let bc = chars_of(b);
    if a.len() != bc.len() {
        return false;
    }
    let mut i: usize = 0;
    while i < a.len()
        invariant
            a@.len() == bc@.len(),
            bc@ == b@,
            i <= a@.len(),
            forall|j: int| 0 <= j < i ==> a@[j] == bc@[j],
        decreases a@.len() - i,
    {
        if a[i] != bc[i] {
            assert(a@[i as int] != bc@[i as int]);
            return false;
        }
        i = i + 1;
    }
    assert(a@ == bc@);
    true
}

fn is_null_exec(t: &[char]) -> (r: bool)
    ensures
        r == is_null(t@),
{
    same_text(t, "~") || same_text(t, "null") || t.len() == 0
}

fn flag_exec(o: &Option<Vec<char>>) -> (r: Result<Option<bool>, TaskError>)
    ensures
        r is Ok <==> flag_of(opt_view(o)) is Some,
        r matches Ok(f) ==> f == flag_of(opt_view(o))->0,
{
    match o {
        None => Ok(None),
        Some(t) => {
            if same_text(t.as_slice(), "true") {
                Ok(Some(true))
            } else if same_text(t.as_slice(), "false") {
                Ok(Some(false))
            } else if is_null_exec(t.as_slice()) {
                Ok(None)
            } else {
                Err(TaskError::Parse)
            }
        },
    }
}

pub open spec fn opt_view(o: &Option<Vec<char>>) -> Option<Seq<char>> {
    match o {
        Some(v) => Some(v@),
        None => None,
    }
}

fn count_exec(o: &Option<Vec<char>>) -> (r: Result<u32, TaskError>)
    ensures
        r is Ok <==> count_of(opt_view(o)) is Some,
        r matches Ok(n) ==> n == count_of(opt_view(o))->0,
{
    match o {
        None => Ok(0),
        Some(t) => {
            if t.len() > 10 {
                return Err(TaskError::Parse);
            }
            match parse_digits(t.as_slice()) {
                Some(v) => {
                    if v <= 0xffff_ffff {
                        Ok(v as u32)
                    } else {
                        Err(TaskError::Parse)
                    }
                },
                None => Err(TaskError::Parse),
            }
        },
    }
}

fn text_exec(o: Option<Vec<char>>) -> (r: String)
    ensures
        r@ == text_or_empty(opt_view(&o)),
{
    match o {
        Some(v) => string_of(v.as_slice()),
        None => String::new(),
    }
}

fn remind_exec(h: &[char]) -> (r: Result<Option<Reminder>, TaskError>)
    ensures
        r is Ok <==> remind_of(lines_of(h@)) is Some,
        r matches Ok(m) ==> crate::record::remind_view(m) == remind_of(lines_of(h@))->0,
{
    match field_exec(h, "remind:") {
        None => Ok(None),
        Some(t) => {
            if t.len() == 0 {
                let notice = count_exec(&field_exec(h, "  notice:"))?;
                let month = text_exec(field_exec(h, "  month:"));
                let day = text_exec(field_exec(h, "  day:"));
                let year = text_exec(field_exec(h, "  year:"));
                let time = text_exec(field_exec(h, "  time:"));
                Ok(Some(Reminder { month, day, year, time, notice }))
            } else if is_null_exec(t.as_slice()) {
                Ok(None)
            } else {
                Err(TaskError::Parse)
            }
        },
    }
}

fn required_exec(o: Option<Vec<char>>) -> (r: Result<String, TaskError>)
    ensures
        r is Ok <==> o is Some,
        r matches Ok(s) ==> s@ == opt_view(&o)->0,
{
    match o {
        Some(v) => Ok(string_of(v.as_slice())),
        None => Err(TaskError::Parse),
    }
}

fn stamp_exec(o: Option<Vec<char>>) -> (r: Result<Stamp, TaskError>)
    ensures
        r is Ok <==> stamp_of(opt_view(&o)) is Some,
        r matches Ok(s) ==> s == stamp_of(opt_view(&o))->0,
{
    match o {
        Some(v) => match parse_stamp_exec(v.as_slice()) {
            Some(s) => Ok(s),
            None => Err(TaskError::Parse),
        },
        None => Err(TaskError::Parse),
    }
}

/// Reads the record that a header holds.
pub fn decode_header_exec(h: &[char], today: Stamp) -> (r: Result<Task, TaskError>)
    ensures
        r is Ok <==> decode_header(h@, today) is Some,
        r matches Ok(t) ==> t@ == decode_header(h@, today)->0,
        r matches Err(e) ==> e == TaskError::Parse,
{
    let task_name = required_exec(field_exec(h, "task_name:"));
    let project = required_exec(field_exec(h, "project:"));
    let path = required_exec(field_exec(h, "path:"));
    let created = stamp_exec(field_exec(h, "created:"));
    let updated = match field_exec(h, "updated:") {
        None => Ok(today.start_of_day()),
        Some(v) => match parse_stamp_exec(v.as_slice()) {
            Some(s) => Ok(s),
            None => Err(TaskError::Parse),
        },
    };
    let fj = flag_exec(&field_exec(h, "exclude_from_journal:"));
    let fl = flag_exec(&field_exec(h, "exclude_from_logging:"));
    let rm = remind_exec(h);
    let id = text_exec(field_exec(h, "id:"));
    match (task_name, project, path, created, updated, fj, fl, rm) {
        (Ok(task_name), Ok(project), Ok(path), Ok(created), Ok(updated), Ok(fj), Ok(fl), Ok(rm)) => {
            Ok(
                Task {
                    id,
                    task_name,
                    project,
                    path,
                    created,
                    updated,
                    exclude_from_journal: fj,
                    exclude_from_logging: fl,
                    remind: rm,
                },
            )
        },
        _ => Err(TaskError::Parse),
    }
}

/// Splits a file into its header (with line breaks) and its body.
pub fn split_file_exec(t: &[char]) -> (r: Option<(Vec<char>, Vec<char>)>)
    ensures
        r is Some <==> split_file(t@) is Some,
        r matches Some((h, b)) ==> split_file(t@) == Some((h@, b@)),
{
    let n = t.len();
    let open = chars_of("---");
    let close = chars_of("\n---");
    match find_from(t, open.as_slice(), 0) {
        None => None,
        Some(a) => {
            proof {
                reveal_strlit("---");
                lemma_first_from(t@, open@, 0);
            }
            let rest = slice_subrange(t, a + 3, n);
            assert(rest@ == t@.skip(a + 3));
            match find_from(rest, close.as_slice(), 0) {
                None => None,
                Some(b) => {
                    proof {
                        reveal_strlit("\n---");
                        lemma_first_from(rest@, close@, 0);
                    }
                    let mut h: Vec<char> = Vec::new();
                    push_all(&mut h, slice_subrange(rest, 0, b + 1));
                    let mut body: Vec<char> = Vec::new();
                    push_all(&mut body, slice_subrange(rest, b + 4, rest.len()));
                    assert(h@ == rest@.take(b + 1));
                    assert(body@ == rest@.skip(b + 4));
                    Some((h, body))
                },
            }
        },
    }
}

} // verus!

verus! {

// ---- the round trip ----

pub open spec fn no_nl(s: Seq<char>) -> bool {
    forall|i: int| 0 <= i < s.len() ==> s[i] != '\n'
}

proof fn lemma_escape(s: Seq<char>)
    ensures
        unescape(escape(s)) == s,
        no_nl(escape(s)),
    decreases s.len(),
{
    if s.len() > 0 {
        lemma_escape(s.skip(1));
        let e = esc_char(s[0]);
        let rest = escape(s.skip(1));
        let x = e + rest;
        assert(escape(s) == x);
        if e.len() == 1 {
            assert(x.skip(1) == rest);
        } else {
            assert(x.skip(2) == rest);
        }
        assert(seq![s[0]] + s.skip(1) == s);
        assert forall|i: int| 0 <= i < x.len() implies x[i] != '\n' by {
            if i >= e.len() {
                assert(x[i] == rest[i - e.len()]);
            }
        }
    }
}

proof fn lemma_scalar_quoted(v: Seq<char>)
    ensures
        scalar(seq![' '] + quoted(v)) == v,
{
    lemma_escape(v);
    let q = quoted(v);
    let raw = seq![' '] + q;
    assert(raw.skip(1) == q);
    assert(trim_start(q) == q);
    assert(trim_start(raw) == q);
    assert(trim_end(q) == q);
    assert(q.subrange(1, q.len() - 1) == escape(v));
}

proof fn lemma_scalar_plain(x: Seq<char>)
    requires
        x.len() >= 1,
        x[0] != ' ',
        x[0] != '"',
        x.last() != ' ',
    ensures
        scalar(seq![' '] + x) == x,
{
    let raw = seq![' '] + x;
    assert(raw.skip(1) == x);
    assert(trim_start(x) == x);
    assert(trim_start(raw) == x);
    assert(trim_end(x) == x);
}

proof fn lemma_index_of_prefix(a: Seq<char>, b: Seq<char>, c: char)
    requires
        forall|i: int| 0 <= i < a.len() ==> a[i] != c,
    ensures
        index_of_char(a + seq![c] + b, c) == a.len(),
    decreases a.len(),
{
    let x = a + seq![c] + b;
    if a.len() > 0 {
        assert(x.skip(1) == a.skip(1) + seq![c] + b);
        lemma_index_of_prefix(a.skip(1), b, c);
    }
}

proof fn lemma_lines_join(ls: Seq<Seq<char>>)
    requires
        forall|i: int| 0 <= i < ls.len() ==> no_nl(#[trigger] ls[i]),
    ensures
        lines_of(join_lines(ls)) == ls,
    decreases ls.len(),
{
    if ls.len() > 0 {
        let l = ls[0];
        let rest = join_lines(ls.skip(1));
        assert(no_nl(l));
        lemma_index_of_prefix(l, rest, '\n');
        let x = l + seq!['\n'] + rest;
        assert(join_lines(ls) == x);
        assert(x.take(l.len() as int) == l);
        assert(x.skip(l.len() as int + 1) == rest);
        assert forall|i: int| 0 <= i < ls.skip(1).len() implies no_nl(#[trigger] ls.skip(1)[i]) by {
            assert(ls.skip(1)[i] == ls[i + 1]);
        }
        lemma_lines_join(ls.skip(1));
        assert(seq![l] + ls.skip(1) == ls);
    }
}

/// Every line is non-empty, has no line break and does not start with `-`.
pub open spec fn plain_lines(ls: Seq<Seq<char>>) -> bool {
    forall|i: int|
        0 <= i < ls.len() ==> no_nl(#[trigger] ls[i]) && ls[i].len() > 0 && ls[i][0] != '-'
}

proof fn lemma_join_dash(ls: Seq<Seq<char>>)
    requires
        plain_lines(ls),
    ensures
        join_lines(ls).len() > 0 ==> join_lines(ls)[0] != '-',
        join_lines(ls).len() > 0 ==> join_lines(ls).last() == '\n',
        forall|i: int|
            0 <= i < join_lines(ls).len() - 1 && #[trigger] join_lines(ls)[i] == '\n'
                ==> join_lines(ls)[i + 1] != '-',
    decreases ls.len(),
{
    if ls.len() > 0 {
        let l = ls[0];
        let rest = join_lines(ls.skip(1));
        assert(plain_lines(ls.skip(1))) by {
            assert forall|i: int| 0 <= i < ls.skip(1).len() implies no_nl(#[trigger] ls.skip(1)[i])
                && ls.skip(1)[i].len() > 0 && ls.skip(1)[i][0] != '-' by {
                assert(ls.skip(1)[i] == ls[i + 1]);
            }
        }
        lemma_join_dash(ls.skip(1));
        let x = l + seq!['\n'] + rest;
        assert(join_lines(ls) == x);
        assert(no_nl(l));
        assert forall|i: int| 0 <= i < x.len() - 1 && #[trigger] x[i] == '\n' implies x[i + 1] != '-' by {
            if i < l.len() {
                assert(x[i] == l[i]);
            } else if i == l.len() {
                if rest.len() > 0 {
                    assert(x[i + 1] == rest[0]);
                }
            } else {
                assert(x[i] == rest[i - l.len() - 1]);
                assert(x[i + 1] == rest[i - l.len()]);
            }
        }
        if rest.len() > 0 {
            assert(x.last() == rest.last());
        }
    }
}

proof fn lemma_first_from_at(s: Seq<char>, p: Seq<char>, i: int, k: int)
    requires
        0 <= i <= k,
        occurs_at(s, p, k),
        forall|j: int| i <= j < k ==> !occurs_at(s, p, j),
    ensures
        first_from(s, p, i) == Some(k),
    decreases k - i,
{
    if i < k {
        assert(!occurs_at(s, p, i));
        lemma_first_from_at(s, p, i + 1, k);
    }
}

/// A file made of the header of `r` and `body` splits back into that
/// header (after the opening line break) and `body`.
proof fn lemma_split_file(ls: Seq<Seq<char>>, body: Seq<char>)
    requires
        plain_lines(ls),
        ls.len() > 0,
    ensures
        split_file("---\n"@ + join_lines(ls) + "---"@ + body) == Some(
            (seq!['\n'] + join_lines(ls), body),
        ),
{
    reveal_strlit("---\n");
    reveal_strlit("---");
    reveal_strlit("\n---");
    let j = join_lines(ls);
    lemma_join_dash(ls);
    assert(j.len() > 0) by {
        assert(j == ls[0] + seq!['\n'] + join_lines(ls.skip(1)));
    }
    let t = "---\n"@ + j + "---"@ + body;
    assert(occurs_at(t, "---"@, 0)) by {
        assert forall|k: int| 0 <= k < 3 implies t[0 + k] == #[trigger] "---"@[k] by {
            assert(t[k] == "---\n"@[k]);
        }
    }
    lemma_first_from_at(t, "---"@, 0, 0);
    let rest = t.skip(3);
    assert(rest == seq!['\n'] + j + "---"@ + body);
    let d = "\n---"@;
    let n = j.len() as int;
    assert(occurs_at(rest, d, n)) by {
        assert(rest[n] == j.last());
        assert forall|k: int| 0 <= k < 4 implies rest[n + k] == #[trigger] d[k] by {
            if k > 0 {
                assert(rest[n + k] == "---"@[k - 1]);
            }
        }
    }
    assert forall|m: int| 0 <= m < n implies !occurs_at(rest, d, m) by {
        if occurs_at(rest, d, m) {
            assert(rest[m] == d[0]);
            assert(rest[m + 1] == d[1]);
            assert(rest[m + 1] == j[m]);
            if m > 0 {
                assert(rest[m] == j[m - 1]);
            }
        }
    }
    lemma_first_from_at(rest, d, 0, n);
    assert(rest.take(n + 1) == seq!['\n'] + j);
    assert(rest.skip(n + 4) == body);
}

} // verus!

verus! {

proof fn lemma_text_line(tag: Seq<char>, v: Seq<char>)
    requires
        tag.len() > 0,
        tag[0] != '-',
        no_nl(tag),
    ensures
        no_nl(text_line(tag, v)),
        text_line(tag, v).len() > 0,
        text_line(tag, v)[0] != '-',
        starts_with(text_line(tag, v), tag),
        scalar(text_line(tag, v).skip(tag.len() as int)) == v,
{
    lemma_escape(v);
    lemma_scalar_quoted(v);
    let l = text_line(tag, v);
    let q = quoted(v);
    assert(l.skip(tag.len() as int) == seq![' '] + q);
    assert forall|i: int| 0 <= i < l.len() implies l[i] != '\n' by {
        if i < tag.len() {
            assert(l[i] == tag[i]);
        } else if i > tag.len() + 1 && i < l.len() - 1 {
            assert(l[i] == escape(v)[i - tag.len() - 2]);
        }
    }
    assert(l[0] == tag[0]);
}

proof fn lemma_plain_line(tag: Seq<char>, x: Seq<char>)
    requires
        tag.len() > 0,
        tag[0] != '-',
        no_nl(tag),
        no_nl(x),
        x.len() >= 1,
        x[0] != ' ',
        x[0] != '"',
        x.last() != ' ',
    ensures
        no_nl(tag + seq![' '] + x),
        (tag + seq![' '] + x)[0] != '-',
        starts_with(tag + seq![' '] + x, tag),
        scalar((tag + seq![' '] + x).skip(tag.len() as int)) == x,
{
    let l = tag + seq![' '] + x;
    lemma_scalar_plain(x);
    assert(l.skip(tag.len() as int) == seq![' '] + x);
    assert forall|i: int| 0 <= i < l.len() implies l[i] != '\n' by {
        if i < tag.len() {
            assert(l[i] == tag[i]);
        } else if i > tag.len() {
            assert(l[i] == x[i - tag.len() - 1]);
        }
    }
    assert(l[0] == tag[0]);
}

proof fn lemma_flag_line(tag: Seq<char>, f: Option<bool>)
    requires
        tag.len() > 0,
        tag[0] != '-',
        no_nl(tag),
    ensures
        no_nl(flag_line(tag, f)),
        flag_line(tag, f)[0] != '-',
        starts_with(flag_line(tag, f), tag),
        flag_of(Some(scalar(flag_line(tag, f).skip(tag.len() as int)))) == Some(f),
{
    reveal_strlit("~");
    reveal_strlit("true");
    reveal_strlit("false");
    reveal_strlit("null");
    lemma_plain_line(tag, flag_text(f));
}

pub proof fn lemma_lines_of_header(ls: Seq<Seq<char>>)
    requires
        forall|i: int| 0 <= i < ls.len() ==> no_nl(#[trigger] ls[i]),
    ensures
        lines_of(seq!['\n'] + join_lines(ls)) == seq![Seq::<char>::empty()] + ls,
{
    let j = join_lines(ls);
    let x = seq!['\n'] + j;
    assert(index_of_char(x, '\n') == 0);
    assert(x.take(0) == Seq::<char>::empty());
    assert(x.skip(1) == j);
    lemma_lines_join(ls);
}

proof fn lemma_field_tail(l: Seq<char>, ls: Seq<Seq<char>>, tag: Seq<char>)
    requires
        !starts_with(l, tag),
    ensures
        field(seq![l] + ls, tag) == field(ls, tag),
{
    assert((seq![l] + ls).skip(1) == ls);
}


} // verus!

verus! {

proof fn lemma_reveal_tags()
    ensures
        no_nl("id:"@) && "id:"@.len() > 0 && "id:"@[0] != '-',
        no_nl("task_name:"@) && "task_name:"@.len() > 0 && "task_name:"@[0] != '-',
        no_nl("project:"@) && "project:"@.len() > 0 && "project:"@[0] != '-',
        no_nl("path:"@) && "path:"@.len() > 0 && "path:"@[0] != '-',
        no_nl("created:"@) && "created:"@.len() > 0 && "created:"@[0] != '-',
        no_nl("updated:"@) && "updated:"@.len() > 0 && "updated:"@[0] != '-',
        no_nl("exclude_from_journal:"@) && "exclude_from_journal:"@.len() > 0
            && "exclude_from_journal:"@[0] != '-',
        no_nl("exclude_from_logging:"@) && "exclude_from_logging:"@.len() > 0
            && "exclude_from_logging:"@[0] != '-',
        no_nl("remind:"@) && "remind:"@.len() > 0 && "remind:"@[0] != '-',
        no_nl("  month:"@) && "  month:"@.len() > 0 && "  month:"@[0] != '-',
        no_nl("  day:"@) && "  day:"@.len() > 0 && "  day:"@[0] != '-',
        no_nl("  year:"@) && "  year:"@.len() > 0 && "  year:"@[0] != '-',
        no_nl("  time:"@) && "  time:"@.len() > 0 && "  time:"@[0] != '-',
        no_nl("  notice:"@) && "  notice:"@.len() > 0 && "  notice:"@[0] != '-',
{
    reveal_strlit("id:");
    reveal_strlit("task_name:");
    reveal_strlit("project:");
    reveal_strlit("path:");
    reveal_strlit("created:");
    reveal_strlit("updated:");
    reveal_strlit("exclude_from_journal:");
    reveal_strlit("exclude_from_logging:");
    reveal_strlit("remind:");
    reveal_strlit("  month:");
    reveal_strlit("  day:");
    reveal_strlit("  year:");
    reveal_strlit("  time:");
    reveal_strlit("  notice:");
}

} // verus!

verus! {

proof fn lemma_top_fields(r: Record)
    requires
        r.wf(),
    ensures
        field(header_lines(r), "id:"@) == Some(r.id),
        field(header_lines(r), "task_name:"@) == Some(r.task_name),
        field(header_lines(r), "project:"@) == Some(r.project),
        field(header_lines(r), "path:"@) == Some(r.path),
        field(header_lines(r), "created:"@) == Some(stamp_text(r.created)),
        field(header_lines(r), "updated:"@) == Some(stamp_text(r.updated)),
{
    lemma_reveal_tags();
    reveal_strlit("id:");
    reveal_strlit("task_name:");
    reveal_strlit("project:");
    reveal_strlit("path:");
    reveal_strlit("created:");
    reveal_strlit("updated:");
    reveal_strlit("exclude_from_journal:");
    reveal_strlit("exclude_from_logging:");
    reveal_strlit("remind:");
    reveal_strlit("remind: ~");
    lemma_text_line("id:"@, r.id);
    lemma_text_line("task_name:"@, r.task_name);
    lemma_text_line("project:"@, r.project);
    lemma_text_line("path:"@, r.path);
    lemma_text_line("created:"@, stamp_text(r.created));
    lemma_text_line("updated:"@, stamp_text(r.updated));
    let l = text_line("project:"@, r.project);
    assert(!starts_with(l, "path:"@)) by {
        assert(l[1] == "project:"@[1]);
        assert("path:"@[1] == 'a');
    }
    reveal_with_fuel(field, 8);
}

} // verus!

verus! {

proof fn lemma_flag_fields(r: Record)
    ensures
        flag_of(field(header_lines(r), "exclude_from_journal:"@)) == Some(r.exclude_from_journal),
        flag_of(field(header_lines(r), "exclude_from_logging:"@)) == Some(r.exclude_from_logging),
        field(header_lines(r), "remind:"@) == Some(
            if r.remind is Some {
                Seq::<char>::empty()
            } else {
                "~"@
            },
        ),
{
    lemma_reveal_tags();
    reveal_strlit("id:");
    reveal_strlit("task_name:");
    reveal_strlit("project:");
    reveal_strlit("path:");
    reveal_strlit("created:");
    reveal_strlit("updated:");
    reveal_strlit("exclude_from_journal:");
    reveal_strlit("exclude_from_logging:");
    reveal_strlit("remind:");
    reveal_strlit("remind: ~");
    reveal_strlit("  month:");
    reveal_strlit("  day:");
    reveal_strlit("  year:");
    reveal_strlit("  time:");
    reveal_strlit("  notice:");
    reveal_strlit("  notice: ");
    reveal_strlit("~");
    let lj = flag_line("exclude_from_journal:"@, r.exclude_from_journal);
    let ll = flag_line("exclude_from_logging:"@, r.exclude_from_logging);
    lemma_flag_line("exclude_from_journal:"@, r.exclude_from_journal);
    lemma_flag_line("exclude_from_logging:"@, r.exclude_from_logging);
    if starts_with(lj, "exclude_from_logging:"@) {
        assert(lj[13] == "exclude_from_logging:"@[13]);
        assert(lj[13] == "exclude_from_journal:"@[13]);
        assert(false);
    }
    lemma_text_line("id:"@, r.id);
    lemma_text_line("task_name:"@, r.task_name);
    lemma_text_line("project:"@, r.project);
    lemma_text_line("path:"@, r.path);
    lemma_text_line("created:"@, stamp_text(r.created));
    lemma_text_line("updated:"@, stamp_text(r.updated));
    let rl = remind_lines(r.remind)[0];
    assert(starts_with(rl, "remind:"@));
    if r.remind is Some {
        assert(rl.skip(7) == Seq::<char>::empty());
        assert(scalar(Seq::<char>::empty()) == Seq::<char>::empty());
    } else {
        assert(rl.skip(7) == seq![' '] + "~"@);
        lemma_scalar_plain("~"@);
    }
    reveal_with_fuel(field, 10);
}

proof fn lemma_field_append(a: Seq<Seq<char>>, b: Seq<Seq<char>>, tag: Seq<char>)
    requires
        tag.len() > 0,
        forall|i: int| 0 <= i < a.len() ==> (#[trigger] a[i]).len() > 0 && a[i][0] != tag[0],
    ensures
        field(a + b, tag) == field(b, tag),
    decreases a.len(),
{
    if a.len() > 0 {
        assert(a[0][0] != tag[0]);
        assert((a + b)[0] == a[0]);
        assert((a + b).skip(1) == a.skip(1) + b);
        assert forall|i: int| 0 <= i < a.skip(1).len() implies (#[trigger] a.skip(1)[i]).len() > 0
            && a.skip(1)[i][0] != tag[0] by {
            assert(a.skip(1)[i] == a[i + 1]);
        }
        lemma_field_append(a.skip(1), b, tag);
    }
}

proof fn lemma_remind_skip(r: Record, tag: Seq<char>)
    requires
        tag.len() > 0,
        tag[0] == ' ',
    ensures
        field(header_lines(r), tag) == field(remind_lines(r.remind), tag),
{
    reveal_strlit("id:");
    reveal_strlit("task_name:");
    reveal_strlit("project:");
    reveal_strlit("path:");
    reveal_strlit("created:");
    reveal_strlit("updated:");
    reveal_strlit("exclude_from_journal:");
    reveal_strlit("exclude_from_logging:");
    let top = seq![
        text_line("id:"@, r.id),
        text_line("task_name:"@, r.task_name),
        text_line("project:"@, r.project),
        text_line("path:"@, r.path),
        text_line("created:"@, stamp_text(r.created)),
        text_line("updated:"@, stamp_text(r.updated)),
        flag_line("exclude_from_journal:"@, r.exclude_from_journal),
        flag_line("exclude_from_logging:"@, r.exclude_from_logging),
    ];
    let rl = remind_lines(r.remind);
    assert(header_lines(r) == top + rl);
    assert forall|i: int| 0 <= i < top.len() implies (#[trigger] top[i]).len() > 0 && top[i][0]
        != tag[0] by {
        if i == 0 {
            assert(top[i][0] == 'i');
        } else if i == 1 {
            assert(top[i][0] == 't');
        } else if i == 2 {
            assert(top[i][0] == 'p');
        } else if i == 3 {
            assert(top[i][0] == 'p');
        } else if i == 4 {
            assert(top[i][0] == 'c');
        } else if i == 5 {
            assert(top[i][0] == 'u');
        } else if i == 6 {
            assert(top[i][0] == 'e');
        } else {
            assert(top[i][0] == 'e');
        }
    }
    lemma_field_append(top, rl, tag);
}

proof fn lemma_nested_text(m: ReminderView, tag: Seq<char>, k: int, v: Seq<char>)
    requires
        1 <= k <= 4,
        remind_lines(Some(m))[k] == text_line(tag, v),
        tag == "  month:"@ || tag == "  day:"@ || tag == "  year:"@ || tag == "  time:"@,
    ensures
        field(remind_lines(Some(m)), tag) == Some(v),
{
    reveal_strlit("remind:");
    reveal_strlit("  month:");
    reveal_strlit("  day:");
    reveal_strlit("  year:");
    reveal_strlit("  time:");
    lemma_lines_nonl(tag);
    lemma_text_line(tag, v);
    let rl = remind_lines(Some(m));
    assert forall|i: int| 0 <= i < k implies !starts_with(#[trigger] rl[i], tag) by {
        if i == 0 {
            assert(rl[i][0] == 'r');
        } else {
            assert(rl[i][2] != tag[2]);
        }
    }
    lemma_field_first(rl, tag, k);
}

proof fn lemma_lines_nonl(tag: Seq<char>)
    requires
        tag == "  month:"@ || tag == "  day:"@ || tag == "  year:"@ || tag == "  time:"@ || tag
            == "  notice:"@,
    ensures
        no_nl(tag),
        tag.len() > 2,
        tag[0] == ' ',
{
    reveal_strlit("  month:");
    reveal_strlit("  day:");
    reveal_strlit("  year:");
    reveal_strlit("  time:");
    reveal_strlit("  notice:");
}

proof fn lemma_field_first(ls: Seq<Seq<char>>, tag: Seq<char>, k: int)
    requires
        0 <= k < ls.len(),
        starts_with(ls[k], tag),
        forall|i: int| 0 <= i < k ==> !starts_with(#[trigger] ls[i], tag),
    ensures
        field(ls, tag) == Some(scalar(ls[k].skip(tag.len() as int))),
    decreases k,
{
    if k > 0 {
        assert forall|i: int| 0 <= i < k - 1 implies !starts_with(#[trigger] ls.skip(1)[i], tag) by {
            assert(ls.skip(1)[i] == ls[i + 1]);
        }
        lemma_field_first(ls.skip(1), tag, k - 1);
    }
}

proof fn lemma_remind_fields(r: Record)
    requires
        r.remind is Some,
    ensures
        field(header_lines(r), "  month:"@) == Some(r.remind->0.month),
        field(header_lines(r), "  day:"@) == Some(r.remind->0.day),
        field(header_lines(r), "  year:"@) == Some(r.remind->0.year),
        field(header_lines(r), "  time:"@) == Some(r.remind->0.time),
        field(header_lines(r), "  notice:"@) == Some(dec(r.remind->0.notice as nat)),
{
    let m = r.remind->0;
    let rl = remind_lines(r.remind);
    lemma_lines_nonl("  month:"@);
    lemma_lines_nonl("  day:"@);
    lemma_lines_nonl("  year:"@);
    lemma_lines_nonl("  time:"@);
    lemma_lines_nonl("  notice:"@);
    lemma_remind_skip(r, "  month:"@);
    lemma_remind_skip(r, "  day:"@);
    lemma_remind_skip(r, "  year:"@);
    lemma_remind_skip(r, "  time:"@);
    lemma_remind_skip(r, "  notice:"@);
    lemma_nested_text(m, "  month:"@, 1, m.month);
    lemma_nested_text(m, "  day:"@, 2, m.day);
    lemma_nested_text(m, "  year:"@, 3, m.year);
    lemma_nested_text(m, "  time:"@, 4, m.time);
    lemma_notice_field(m);
}

proof fn lemma_notice_field(m: ReminderView)
    ensures
        field(remind_lines(Some(m)), "  notice:"@) == Some(dec(m.notice as nat)),
{
    reveal_strlit("remind:");
    reveal_strlit("  month:");
    reveal_strlit("  day:");
    reveal_strlit("  year:");
    reveal_strlit("  time:");
    reveal_strlit("  notice:");
    reveal_strlit("  notice: ");
    let tag = "  notice:"@;
    lemma_lines_nonl(tag);
    crate::text::lemma_dec(m.notice as nat);
    let d = dec(m.notice as nat);
    assert(crate::text::is_digit(d[0]) && crate::text::is_digit(d.last()));
    assert(no_nl(d)) by {
        assert forall|i: int| 0 <= i < d.len() implies d[i] != '\n' by {
            assert(crate::text::is_digit(d[i]));
        }
    }
    lemma_plain_line(tag, d);
    assert("  notice: "@ + d == tag + seq![' '] + d);
    let rl = remind_lines(Some(m));
    assert forall|i: int| 0 <= i < 5 implies !starts_with(#[trigger] rl[i], tag) by {
        if i == 0 {
            assert(rl[i][0] == 'r');
        } else {
            assert(rl[i][2] != tag[2]);
        }
    }
    lemma_field_first(rl, tag, 5);
}

} // verus!

verus! {

pub proof fn lemma_header_plain(r: Record)
    ensures
        plain_lines(header_lines(r)),
        header_lines(r).len() > 0,
{
    lemma_reveal_tags();
    reveal_strlit("remind: ~");
    reveal_strlit("remind:");
    reveal_strlit("  notice: ");
    lemma_text_line("id:"@, r.id);
    lemma_text_line("task_name:"@, r.task_name);
    lemma_text_line("project:"@, r.project);
    lemma_text_line("path:"@, r.path);
    lemma_text_line("created:"@, stamp_text(r.created));
    lemma_text_line("updated:"@, stamp_text(r.updated));
    lemma_flag_line("exclude_from_journal:"@, r.exclude_from_journal);
    lemma_flag_line("exclude_from_logging:"@, r.exclude_from_logging);
    let hl = header_lines(r);
    let rl = remind_lines(r.remind);
    assert(plain_lines(rl)) by {
        if r.remind is Some {
            let m = r.remind->0;
            lemma_text_line("  month:"@, m.month);
            lemma_text_line("  day:"@, m.day);
            lemma_text_line("  year:"@, m.year);
            lemma_text_line("  time:"@, m.time);
            crate::text::lemma_dec(m.notice as nat);
            let d = dec(m.notice as nat);
            let nl = "  notice: "@ + d;
            assert(no_nl(nl)) by {
                assert forall|i: int| 0 <= i < nl.len() implies nl[i] != '\n' by {
                    if i >= 10 {
                        assert(nl[i] == d[i - 10]);
                        assert(crate::text::is_digit(d[i - 10]));
                    }
                }
            }
            assert(nl[0] == ' ');
        }
    }
    assert forall|i: int| 0 <= i < hl.len() implies no_nl(#[trigger] hl[i]) && hl[i].len() > 0
        && hl[i][0] != '-' by {
        if i >= 8 {
            assert(hl[i] == rl[i - 8]);
        }
    }
}

/// Reading the header that `encode_header` writes gives the record back.
pub proof fn lemma_header_round_trip(r: Record, today: Stamp)
    requires
        r.wf(),
    ensures
        decode_header(seq!['\n'] + header_text(r), today) == Some(r),
{
    let hl = header_lines(r);
    lemma_header_plain(r);
    lemma_lines_of_header(hl);
    let ls = seq![Seq::<char>::empty()] + hl;
    lemma_reveal_tags();
    reveal_strlit("  month:");
    reveal_strlit("  day:");
    reveal_strlit("  year:");
    reveal_strlit("  time:");
    reveal_strlit("  notice:");
    reveal_strlit("~");
    reveal_strlit("null");
    lemma_field_tail(Seq::<char>::empty(), hl, "id:"@);
    lemma_field_tail(Seq::<char>::empty(), hl, "task_name:"@);
    lemma_field_tail(Seq::<char>::empty(), hl, "project:"@);
    lemma_field_tail(Seq::<char>::empty(), hl, "path:"@);
    lemma_field_tail(Seq::<char>::empty(), hl, "created:"@);
    lemma_field_tail(Seq::<char>::empty(), hl, "updated:"@);
    lemma_field_tail(Seq::<char>::empty(), hl, "exclude_from_journal:"@);
    lemma_field_tail(Seq::<char>::empty(), hl, "exclude_from_logging:"@);
    lemma_field_tail(Seq::<char>::empty(), hl, "remind:"@);
    lemma_field_tail(Seq::<char>::empty(), hl, "  month:"@);
    lemma_field_tail(Seq::<char>::empty(), hl, "  day:"@);
    lemma_field_tail(Seq::<char>::empty(), hl, "  year:"@);
    lemma_field_tail(Seq::<char>::empty(), hl, "  time:"@);
    lemma_field_tail(Seq::<char>::empty(), hl, "  notice:"@);
    lemma_top_fields(r);
    lemma_flag_fields(r);
    crate::stamp::lemma_stamp_round_trip(r.created);
    crate::stamp::lemma_stamp_round_trip(r.updated);
    if r.remind is Some {
        lemma_remind_fields(r);
        let m = r.remind->0;
        crate::text::lemma_dec(m.notice as nat);
        assert(count_of(field(ls, "  notice:"@)) == Some(m.notice));
        assert(remind_of(ls) == Some(r.remind));
    } else {
        assert(remind_of(ls) == Some(r.remind));
    }
    let d = decode_header(seq!['\n'] + header_text(r), today)->0;
    assert(d.id == r.id);
}

/// A file written from a well-formed record and any body reads back as
/// that record, with that body.
pub proof fn lemma_file_round_trip(r: Record, body: Seq<char>, today: Stamp)
    requires
        r.wf(),
    ensures
        split_file(file_text(r, body)) == Some((seq!['\n'] + header_text(r), body)),
        decode_file(file_text(r, body), today) == Some(r),
{
    lemma_header_plain(r);
    lemma_split_file(header_lines(r), body);
    lemma_header_round_trip(r, today);
}

} // verus!

verus! {

/// The first character of each header line: only the `id` line starts with
/// `i`, only the `updated` line with `u`.
pub proof fn lemma_first_chars(r: Record)
    ensures
        forall|i: int| 0 <= i < header_lines(r).len() ==> (#[trigger] header_lines(r)[i]).len() > 0,
        header_lines(r).len() > 5,
        header_lines(r)[0][0] == 'i',
        header_lines(r)[5][0] == 'u',
        forall|i: int| 0 < i < header_lines(r).len() ==> (#[trigger] header_lines(r)[i])[0] != 'i',
        forall|i: int|
            0 <= i < header_lines(r).len() && i != 5 ==> (#[trigger] header_lines(r)[i])[0] != 'u',
{
    reveal_strlit("id:");
    reveal_strlit("task_name:");
    reveal_strlit("project:");
    reveal_strlit("path:");
    reveal_strlit("created:");
    reveal_strlit("updated:");
    reveal_strlit("exclude_from_journal:");
    reveal_strlit("exclude_from_logging:");
    reveal_strlit("remind:");
    reveal_strlit("remind: ~");
    reveal_strlit("  month:");
    reveal_strlit("  day:");
    reveal_strlit("  year:");
    reveal_strlit("  time:");
    reveal_strlit("  notice: ");
    let ls = header_lines(r);
    let rl = remind_lines(r.remind);
    assert forall|i: int| 0 <= i < ls.len() implies (#[trigger] ls[i]).len() > 0 && (i != 0 ==> ls[i][0]
        != 'i') && (i != 5 ==> ls[i][0] != 'u') && (i == 0 ==> ls[i][0] == 'i') && (i == 5
        ==> ls[i][0] == 'u') by {
        if i >= 8 {
            assert(ls[i] == rl[i - 8]);
            if i == 8 {
                assert(rl[0][0] == 'r');
            } else {
                assert(rl[i - 8][0] == ' ');
            }
        }
    }
}

/// A blank first line is passed over by every lookup.
pub proof fn lemma_blank_first(ls: Seq<Seq<char>>)
    ensures
        forall|tag: Seq<char>|
            tag.len() > 0 ==> field(#[trigger] (seq![Seq::<char>::empty()] + ls), tag) == field(ls, tag),
{
    assert forall|tag: Seq<char>| tag.len() > 0 implies field(
        #[trigger] (seq![Seq::<char>::empty()] + ls),
        tag,
    ) == field(ls, tag) by {
        lemma_field_tail(Seq::<char>::empty(), ls, tag);
    }
}

/// The first character of each tag.
pub proof fn lemma_tag_heads()
    ensures
        "id:"@.len() > 0 && "id:"@[0] == 'i',
        "task_name:"@.len() > 0 && "task_name:"@[0] == 't',
        "project:"@.len() > 0 && "project:"@[0] == 'p',
        "path:"@.len() > 0 && "path:"@[0] == 'p',
        "created:"@.len() > 0 && "created:"@[0] == 'c',
        "updated:"@.len() > 0 && "updated:"@[0] == 'u',
        "exclude_from_journal:"@.len() > 0 && "exclude_from_journal:"@[0] == 'e',
        "exclude_from_logging:"@.len() > 0 && "exclude_from_logging:"@[0] == 'e',
        "remind:"@.len() > 0 && "remind:"@[0] == 'r',
        "  month:"@.len() > 0 && "  month:"@[0] == ' ',
        "  day:"@.len() > 0 && "  day:"@[0] == ' ',
        "  year:"@.len() > 0 && "  year:"@[0] == ' ',
        "  time:"@.len() > 0 && "  time:"@[0] == ' ',
        "  notice:"@.len() > 0 && "  notice:"@[0] == ' ',
{
    reveal_strlit("id:");
    reveal_strlit("task_name:");
    reveal_strlit("project:");
    reveal_strlit("path:");
    reveal_strlit("created:");
    reveal_strlit("updated:");
    reveal_strlit("exclude_from_journal:");
    reveal_strlit("exclude_from_logging:");
    reveal_strlit("remind:");
    reveal_strlit("  month:");
    reveal_strlit("  day:");
    reveal_strlit("  year:");
    reveal_strlit("  time:");
    reveal_strlit("  notice:");
}

} // verus!
