//! Properties that relate several operations of the store.
use vstd::prelude::*;
use crate::codec::{
    decode_file, decode_header, file_text, header_lines, header_text, join_lines,
    lemma_file_round_trip, split_file,
};
use crate::record::Record;
use crate::stamp::Stamp;
use crate::store::{
    file_at, has_file, lemma_remove, lemma_rename, lemma_write, unique_paths, write_files, Files,
};
use crate::task::{
    is_placeholder, new_location, promote_files, save_outcome, save_target, saved_record,
};
use crate::task_list::{add_files, exclusive_lists, pointer_path, pointer_text, unlist_files, unlist_one};

verus! {

/// Saving a task whose file holds its own header changes only `updated`:
/// the file reads back as the same record with `updated` set to the time of
/// the save, and the body is kept byte for byte.
pub proof fn lemma_resave_keeps_body(
    fs: Files,
    r: Record,
    body: Seq<char>,
    fresh: Seq<char>,
    now: Stamp,
)
    requires
        unique_paths(fs),
        r.wf(),
        now.wf(),
        !is_placeholder(r.id),
        save_target(fs, r) is Some,
        file_at(fs, save_target(fs, r)->0) == Some(file_text(r, body)),
    ensures
        ({
            let p = save_target(fs, r)->0;
            let after = save_outcome(fs, r, fresh, now);
            let r2 = Record { updated: now, ..r };
            &&& after.1 is Ok
            &&& file_at(after.0, p) == Some(file_text(r2, body))
            &&& decode_file(file_at(after.0, p)->0, now) == Some(r2)
            &&& split_file(file_at(after.0, p)->0) == Some((seq!['\n'] + header_text(r2), body))
            &&& forall|q: Seq<char>| q != p ==> file_at(after.0, q) == file_at(fs, q)
        }),
{
    let p = save_target(fs, r)->0;
    let r2 = Record { updated: now, ..r };
    lemma_file_round_trip(r, body, now);
    assert(saved_record(r, fresh, now) == r2);
    lemma_write(fs, p, file_text(r2, body));
    lemma_file_round_trip(r2, body, now);
}

proof fn lemma_field_remove(ls: Seq<Seq<char>>, j: int, tag: Seq<char>)
    requires
        0 <= j < ls.len(),
        !crate::text::starts_with(ls[j], tag),
    ensures
        crate::codec::field(ls.remove(j), tag) == crate::codec::field(ls, tag),
    decreases j,
{
    if j > 0 {
        assert(ls.remove(j).skip(1) == ls.skip(1).remove(j - 1));
        assert(ls.remove(j)[0] == ls[0]);
        lemma_field_remove(ls.skip(1), j - 1, tag);
    } else {
        assert(ls.remove(0) == ls.skip(1));
    }
}

/// The record that a header without its `id` line and/or its `updated`
/// line reads as.
pub open spec fn without_fields(r: Record, no_id: bool, no_updated: bool, today: Stamp) -> Record {
    Record {
        id: if no_id {
            seq![]
        } else {
            r.id
        },
        updated: if no_updated {
            today.midnight()
        } else {
            r.updated
        },
        ..r
    }
}

/// The header lines of `r` without the `id` line and/or the `updated` line.
pub open spec fn lines_without(r: Record, no_id: bool, no_updated: bool) -> Seq<Seq<char>> {
    let ls = header_lines(r);
    let a = if no_updated {
        ls.remove(5)
    } else {
        ls
    };
    if no_id {
        a.remove(0)
    } else {
        a
    }
}

/// Every line is non-empty, line `j` starts with `c` and no other line does.
pub open spec fn only_start(ls: Seq<Seq<char>>, j: int, c: char) -> bool {
    &&& 0 <= j < ls.len()
    &&& ls[j][0] == c
    &&& forall|i: int| 0 <= i < ls.len() ==> (#[trigger] ls[i]).len() > 0 && (i != j ==> ls[i][0] != c)
}

proof fn lemma_field_none(ls: Seq<Seq<char>>, tag: Seq<char>)
    requires
        tag.len() > 0,
        forall|i: int| 0 <= i < ls.len() ==> (#[trigger] ls[i]).len() > 0 && ls[i][0] != tag[0],
    ensures
        crate::codec::field(ls, tag) is None,
    decreases ls.len(),
{
    if ls.len() > 0 {
        assert(ls[0][0] != tag[0]);
        assert forall|i: int| 0 <= i < ls.skip(1).len() implies (#[trigger] ls.skip(1)[i]).len() > 0
            && ls.skip(1)[i][0] != tag[0] by {
            assert(ls.skip(1)[i] == ls[i + 1]);
        }
        lemma_field_none(ls.skip(1), tag);
    }
}

/// Dropping the one line that starts with `c` hides exactly the tags that
/// start with `c`.
proof fn lemma_drop_line(ls: Seq<Seq<char>>, j: int, c: char)
    requires
        only_start(ls, j, c),
    ensures
        forall|tag: Seq<char>|
            tag.len() > 0 && tag[0] != c ==> crate::codec::field(#[trigger] ls.remove(j), tag)
                == crate::codec::field(ls, tag),
        forall|tag: Seq<char>|
            tag.len() > 0 && tag[0] == c ==> crate::codec::field(#[trigger] ls.remove(j), tag) is None,
        forall|i: int| 0 <= i < ls.remove(j).len() ==> (#[trigger] ls.remove(j)[i]).len() > 0,
{
    let g = ls.remove(j);
    assert forall|i: int| 0 <= i < g.len() implies (#[trigger] g[i]).len() > 0 && g[i][0] != c by {
        if i < j {
            assert(g[i] == ls[i]);
        } else {
            assert(g[i] == ls[i + 1]);
        }
    }
    assert forall|tag: Seq<char>| tag.len() > 0 && tag[0] != c implies crate::codec::field(
        #[trigger] ls.remove(j),
        tag,
    ) == crate::codec::field(ls, tag) by {
        lemma_field_remove(ls, j, tag);
    }
    assert forall|tag: Seq<char>| tag.len() > 0 && tag[0] == c implies crate::codec::field(
        #[trigger] ls.remove(j),
        tag,
    ) is None by {
        lemma_field_none(g, tag);
    }
}

/// A stored header that lacks its `id` line, its `updated` line or both
/// still reads: the identifier as empty (to be assigned on the next save),
/// `updated` as midnight of the day of reading, every other field as written.
#[verifier::rlimit(100)]
pub proof fn lemma_load_synthesizes(r: Record, no_id: bool, no_updated: bool, today: Stamp)
    requires
        r.wf(),
    ensures
        decode_header(seq!['\n'] + join_lines(lines_without(r, no_id, no_updated)), today) == Some(
            without_fields(r, no_id, no_updated, today),
        ),
{
    let ls = header_lines(r);
    crate::codec::lemma_header_round_trip(r, today);
    crate::codec::lemma_header_plain(r);
    crate::codec::lemma_first_chars(r);
    assert(only_start(ls, 5, 'u'));
    assert(only_start(ls, 0, 'i'));
    let a = if no_updated {
        ls.remove(5)
    } else {
        ls
    };
    let b = lines_without(r, no_id, no_updated);
    if no_updated {
        lemma_drop_line(ls, 5, 'u');
        assert(only_start(a, 0, 'i')) by {
            assert forall|i: int| 0 <= i < a.len() implies (#[trigger] a[i]).len() > 0 && (i != 0
                ==> a[i][0] != 'i') by {
                if i < 5 {
                    assert(a[i] == ls[i]);
                } else {
                    assert(a[i] == ls[i + 1]);
                }
            }
            assert(a[0] == ls[0]);
        }
    }
    if no_id {
        lemma_drop_line(a, 0, 'i');
    }
    assert forall|i: int| 0 <= i < b.len() implies crate::codec::no_nl(#[trigger] b[i]) by {
        let ia = if no_id {
            i + 1
        } else {
            i
        };
        assert(b[i] == a[ia]);
        let il = if no_updated && ia >= 5 {
            ia + 1
        } else {
            ia
        };
        assert(a[ia] == ls[il]);
    }
    crate::codec::lemma_lines_of_header(b);
    crate::codec::lemma_lines_of_header(ls);
    crate::codec::lemma_blank_first(b);
    crate::codec::lemma_blank_first(ls);
    crate::codec::lemma_tag_heads();
}

/// Promoting a task twice leaves what promoting it once leaves: its file at
/// the active path and none in `new/`.
pub proof fn lemma_promote_idempotent(fs: Files, r: Record)
    requires
        unique_paths(fs),
        r.path != new_location(r),
        has_file(fs, new_location(r)) || has_file(fs, r.path),
    ensures
        promote_files(promote_files(fs, r), r) == promote_files(fs, r),
        has_file(promote_files(fs, r), r.path),
        !has_file(promote_files(fs, r), new_location(r)),
{
    let n = new_location(r);
    if has_file(fs, n) {
        lemma_rename(fs, n, r.path);
    }
}

/// After a task is added to one of the exclusive lists, no other exclusive
/// list holds a pointer to it, while the list it went to does (when its
/// pointer file is not also the task's own file or the journal).
pub proof fn lemma_add_exclusive(
    fs: Files,
    list: Seq<char>,
    r: Record,
    journal: Seq<char>,
    journal_start: Seq<char>,
)
    requires
        unique_paths(fs),
        exclusive_lists().contains(list),
        forall|m: Seq<char>|
            exclusive_lists().contains(m) ==> journal != pointer_path(m, r.task_name) && r.path
                != pointer_path(m, r.task_name) && new_location(r) != pointer_path(m, r.task_name),
    ensures
        forall|m: Seq<char>|
            exclusive_lists().contains(m) && m != list ==> !has_file(
                #[trigger] add_files(fs, list, list, r, journal, journal_start),
                pointer_path(m, r.task_name),
            ),
        has_file(add_files(fs, list, list, r, journal, journal_start), pointer_path(list, r.task_name)),
{
    let name = r.task_name;
    let own = pointer_path(list, name);
    let f1 = write_files(fs, own, pointer_text(r));
    lemma_write(fs, own, pointer_text(r));
    assert(exclusive_lists()[0] == "Queued"@);
    assert(exclusive_lists()[1] == "Today"@);
    assert(exclusive_lists()[2] == "Waiting"@);
    let f2 = promote_files(f1, r);
    let n = new_location(r);
    if has_file(f1, n) {
        lemma_rename(f1, n, r.path);
    }
    assert(unique_paths(f2));
    assert(has_file(f2, own)) by {
        assert(file_at(f2, own) == file_at(f1, own));
    }
    let q1 = unlist_one(f2, "Queued"@, name, list);
    let q2 = unlist_one(q1, "Today"@, name, list);
    let f3 = unlist_one(q2, "Waiting"@, name, list);
    assert(f3 == unlist_files(f2, name, list));
    lemma_unlist_step(f2, "Queued"@, name, list);
    lemma_unlist_step(q1, "Today"@, name, list);
    lemma_unlist_step(q2, "Waiting"@, name, list);
    lemma_exclusive_cases(list);
    reveal_strlit("Queued");
    reveal_strlit("Today");
    reveal_strlit("Waiting");
    assert forall|m: Seq<char>|
        (m == "Queued"@ || m == "Today"@ || m == "Waiting"@) && m != list implies pointer_path(m, name)
        != own by {
        assert(pointer_path(m, name)[0] == m[0]);
        assert(own[0] == list[0]);
    }
    assert(has_file(f3, own));
    assert forall|m: Seq<char>| exclusive_lists().contains(m) && m != list implies !has_file(
        f3,
        pointer_path(m, name),
    ) by {
        lemma_exclusive_cases(m);
    }
    let result = add_files(fs, list, list, r, journal, journal_start);
    if list == "Today"@ {
        let f4 = if has_file(f3, journal) {
            f3
        } else {
            write_files(f3, journal, journal_start)
        };
        if !has_file(f3, journal) {
            lemma_write(f3, journal, journal_start);
        }
        lemma_exclusive_cases(list);
        assert(journal != own);
        let c = match file_at(f4, journal) {
            Some(t) => t,
            None => Seq::<char>::empty(),
        } + crate::journal::task_line(r);
        lemma_write(f4, journal, c);
        assert forall|m: Seq<char>| exclusive_lists().contains(m) && m != list implies !has_file(
            #[trigger] add_files(fs, list, list, r, journal, journal_start),
            pointer_path(m, name),
        ) by {
            lemma_exclusive_cases(m);
            assert(file_at(f4, pointer_path(m, name)) == file_at(f3, pointer_path(m, name)));
        }
        assert(file_at(f4, own) == file_at(f3, own));
    }
}

proof fn lemma_exclusive_cases(m: Seq<char>)
    requires
        exclusive_lists().contains(m),
    ensures
        m == "Queued"@ || m == "Today"@ || m == "Waiting"@,
{
    let i = choose|i: int| 0 <= i < exclusive_lists().len() && exclusive_lists()[i] == m;
    assert(i == 0 || i == 1 || i == 2);
}

proof fn lemma_unlist_step(fs: Files, m: Seq<char>, name: Seq<char>, excluded: Seq<char>)
    requires
        unique_paths(fs),
    ensures
        unique_paths(unlist_one(fs, m, name, excluded)),
        m != excluded ==> !has_file(unlist_one(fs, m, name, excluded), pointer_path(m, name)),
        forall|q: Seq<char>|
            q != pointer_path(m, name) ==> file_at(
                #[trigger] unlist_one(fs, m, name, excluded),
                q,
            ) == file_at(fs, q),
        m == excluded ==> unlist_one(fs, m, name, excluded) == fs,
{
    if m != excluded {
        lemma_remove(fs, pointer_path(m, name));
    }
}

} // verus!

verus! {

/// Commenting on a new task whose file holds its own header puts the
/// entry ahead of the body and leaves the header as it is.
pub proof fn lemma_comment_on_new(fs: Files, r: Record, body: Seq<char>, comment: Seq<char>, now: Stamp)
    requires
        unique_paths(fs),
        r.wf(),
        !crate::task::is_excluded(r),
        file_at(fs, new_location(r)) == Some(file_text(r, body)),
    ensures
        crate::task::comment_outcome(fs, r, comment, true, now) == (
            write_files(
                fs,
                new_location(r),
                file_text(
                    r,
                    seq!['\n'] + crate::task::comment_entry(now, comment) + crate::task::drop_nl(body),
                ),
            ),
            Ok::<(), crate::record::TaskError>(()),
        ),
{
    let entry = crate::task::comment_entry(now, comment);
    let body2 = seq!['\n'] + entry + crate::task::drop_nl(body);
    lemma_file_round_trip(r, body, now);
    let h = seq!['\n'] + header_text(r);
    let c1 = "---"@ + h + "---\n"@ + entry + crate::task::drop_nl(body);
    assert(crate::task::with_comment(file_text(r, body), entry) == Some(c1));
    assert(c1 == file_text(r, body2)) by {
        reveal_strlit("---");
        reveal_strlit("---\n");
        assert(c1 == "---\n"@ + header_text(r) + "---"@ + body2);
    }
}

/// Moving a new task to another project leaves its file at the new
/// project's `new/` folder, holding the same record with the project and
/// the project folder of its path changed and `updated` set to the time of
/// the move, and with the audit comment ahead of the old body.
pub proof fn lemma_change_project_moves(
    fs: Files,
    r: Record,
    body: Seq<char>,
    project: Seq<char>,
    fresh: Seq<char>,
    now: Stamp,
)
    requires
        unique_paths(fs),
        r.wf(),
        now.wf(),
        !is_placeholder(r.id),
        !crate::task::is_excluded(r),
        file_at(fs, new_location(r)) == Some(file_text(r, body)),
    ensures
        ({
            let moved = crate::task::with_project(r, project);
            let dst = new_location(moved);
            let after = crate::task::change_project_outcome(fs, r, project, fresh, now);
            let body2 = seq!['\n'] + crate::task::comment_entry(now, "Project changed to "@ + project)
                + crate::task::drop_nl(body);
            &&& after.1 is Ok
            &&& file_at(after.0, dst) == Some(file_text(Record { updated: now, ..moved }, body2))
            &&& dst != new_location(r) ==> !has_file(after.0, new_location(r))
        }),
{
    let src = new_location(r);
    let moved = crate::task::with_project(r, project);
    let dst = new_location(moved);
    let entry = crate::task::comment_entry(now, "Project changed to "@ + project);
    let body2 = seq!['\n'] + entry + crate::task::drop_nl(body);
    lemma_comment_on_new(fs, r, body, "Project changed to "@ + project, now);
    let f1 = write_files(fs, src, file_text(r, body2));
    lemma_write(fs, src, file_text(r, body2));
    lemma_rename(f1, src, dst);
    let f2 = crate::store::rename_files(f1, src, dst);
    lemma_file_round_trip(r, body2, now);
    assert(file_at(f2, dst) == Some(file_text(r, body2)));
    assert(crate::task::save_target(f2, moved) == Some(dst));
    let m2 = Record { updated: now, ..moved };
    assert(saved_record(moved, fresh, now) == m2);
    lemma_write(f2, dst, file_text(m2, body2));
}

} // verus!

verus! {

proof fn lemma_last_slash_concat(a: Seq<char>, rest: Seq<char>)
    requires
        a.len() > 0,
        a.last() == '/',
    ensures
        crate::task::last_slash(a + rest) == if crate::task::last_slash(rest) >= 0 {
            a.len() + crate::task::last_slash(rest)
        } else {
            a.len() - 1
        },
    decreases rest.len(),
{
    if rest.len() == 0 {
        assert(a + rest == a);
    } else {
        assert((a + rest).last() == rest.last());
        if rest.last() != '/' {
            assert((a + rest).drop_last() == a + rest.drop_last());
            lemma_last_slash_concat(a, rest.drop_last());
        }
    }
}

proof fn lemma_dir_part_concat(a: Seq<char>, rest: Seq<char>)
    requires
        a.len() > 0,
        a.last() == '/',
    ensures
        crate::task::dir_part(a + rest) == a + crate::task::dir_part(rest),
{
    lemma_last_slash_concat(a, rest);
    crate::task::lemma_last_slash_bound(rest);
    assert(crate::task::dir_part(a + rest) =~= a + crate::task::dir_part(rest));
}

/// The year turnover moves a new task of the old year to the same place in
/// the new year's tree: the file keeps its name and body, and the stored
/// record changes only in the year folder of its path and in `updated`.
pub proof fn lemma_turnover_moves_one(
    fs: Files,
    r: Record,
    body: Seq<char>,
    folder_name: Seq<char>,
    old_year: Seq<char>,
    new_year: Seq<char>,
    fresh: Seq<char>,
    now: Stamp,
)
    requires
        unique_paths(fs),
        r.wf(),
        now.wf(),
        !is_placeholder(r.id),
        crate::text::starts_with(r.path, crate::task::year_prefix(folder_name, old_year)),
        file_at(fs, new_location(r)) == Some(file_text(r, body)),
    ensures
        ({
            let a = crate::task::year_prefix(folder_name, old_year);
            let b = crate::task::year_prefix(folder_name, new_year);
            let p = new_location(r);
            let r2 = crate::task::with_path(r, b + r.path.skip(a.len() as int));
            let np = new_location(r2);
            &&& np == crate::task::swap_prefix(p, a, b)
            &&& file_at(crate::task::turnover_one(fs, p, folder_name, old_year, new_year, fresh, now), np)
                == Some(file_text(Record { updated: now, ..r2 }, body))
        }),
{
    let a = crate::task::year_prefix(folder_name, old_year);
    let b = crate::task::year_prefix(folder_name, new_year);
    reveal_strlit("/");
    let rest = r.path.skip(a.len() as int);
    assert(r.path == a + rest);
    lemma_dir_part_concat(a, rest);
    lemma_dir_part_concat(b, rest);
    let tail = crate::task::dir_part(rest) + "new/"@ + r.task_name + ".md"@;
    let p = new_location(r);
    assert(p == a + tail);
    assert(crate::text::starts_with(p, a));
    assert(p.skip(a.len() as int) == tail);
    let r2 = crate::task::with_path(r, b + rest);
    let np = new_location(r2);
    assert(np == b + tail);
    assert(crate::task::swap_prefix(r.path, a, b) == b + rest);
    lemma_rename(fs, p, np);
    let f1 = crate::store::rename_files(fs, p, np);
    lemma_file_round_trip(r, body, now);
    assert(file_at(f1, np) == Some(file_text(r, body)));
    assert(crate::task::save_target(f1, r2) == Some(np));
    let m2 = Record { updated: now, ..r2 };
    assert(saved_record(r2, fresh, now) == m2);
    lemma_write(f1, np, file_text(m2, body));
}

} // verus!
