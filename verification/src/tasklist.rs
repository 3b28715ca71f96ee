//! Editing the task list: deleting, duplicating and reordering steps, the
//! stored messages and images a step leaves behind, and how comments group
//! the rows that follow them.

use vstd::prelude::*;
use crate::config::{delete_image, delete_msg, msg_key, save_tasks};
use crate::constants::{TaskActionType, TaskStep, unpack_image_match, unpack_move};
use crate::store::{ChangeView, ConfigStore, StoreView};
use crate::taskcodec::encode_spec;

verus! {

// ---------------------------------------------------------------------
// What a step leaves in the store
// ---------------------------------------------------------------------

/// The store without message `id` (unchanged for id 0).
pub open spec fn drop_msg(v: StoreView, id: u64) -> StoreView {
    if id == 0 {
        v
    } else {
        StoreView { config: v.config.remove(msg_key(id)), images: v.images }
    }
}

/// The store without image `id` (unchanged for id 0).
pub open spec fn drop_image(v: StoreView, id: u64) -> StoreView {
    if id == 0 {
        v
    } else {
        StoreView { config: v.config, images: v.images.remove(id) }
    }
}

/// The store once a step's own records are gone: an image match's image,
/// failure message and window title; the message of a notification, a
/// clipboard text, a comment or a program path; the window title of a move
/// to a window's centre.
pub open spec fn cleanup_spec(v: StoreView, step: TaskStep) -> StoreView {
    match step.action {
        TaskActionType::ImageMatch => drop_msg(
            drop_msg(drop_image(v, step.param % 0x1_0000_0000), step.param / 0x1_0000_0000),
            (step.extra / 1024) as u64,
        ),
        TaskActionType::Notify | TaskActionType::CopyText | TaskActionType::Comment | TaskActionType::OpenProgram => drop_msg(
            v,
            step.param,
        ),
        TaskActionType::MouseMove => if step.param % 0x1_0000_0000 == 0xFFFF_FFFE {
            drop_msg(v, step.param / 0x1_0000_0000)
        } else {
            v
        },
        _ => v,
    }
}

/// The store once the records of all of `tasks` are gone, first to last.
pub open spec fn cleanup_all(v: StoreView, tasks: Seq<TaskStep>) -> StoreView
    decreases tasks.len(),
{
    if tasks.len() == 0 {
        v
    } else {
        cleanup_spec(cleanup_all(v, tasks.drop_last()), tasks.last())
    }
}

/// The logged removal of message `id` (none for id 0).
pub open spec fn msg_removal(id: u64) -> Seq<ChangeView> {
    if id == 0 {
        Seq::empty()
    } else {
        seq![ChangeView::Remove(msg_key(id))]
    }
}

/// The logged removal of image `id` (none for id 0).
pub open spec fn image_removal(id: u64) -> Seq<ChangeView> {
    if id == 0 {
        Seq::empty()
    } else {
        seq![ChangeView::RemoveImage(id)]
    }
}

/// The changes logged when a step's own records are deleted, in the order
/// of [`cleanup_spec`].
pub open spec fn cleanup_changes(step: TaskStep) -> Seq<ChangeView> {
    match step.action {
        TaskActionType::ImageMatch => image_removal(step.param % 0x1_0000_0000) + msg_removal(
            step.param / 0x1_0000_0000,
        ) + msg_removal((step.extra / 1024) as u64),
        TaskActionType::Notify | TaskActionType::CopyText | TaskActionType::Comment | TaskActionType::OpenProgram => msg_removal(
            step.param,
        ),
        TaskActionType::MouseMove => if step.param % 0x1_0000_0000 == 0xFFFF_FFFE {
            msg_removal(step.param / 0x1_0000_0000)
        } else {
            Seq::empty()
        },
        _ => Seq::empty(),
    }
}

/// The changes logged when the records of all of `tasks` are deleted,
/// first to last.
pub open spec fn cleanup_all_changes(tasks: Seq<TaskStep>) -> Seq<ChangeView>
    decreases tasks.len(),
{
    if tasks.len() == 0 {
        Seq::empty()
    } else {
        cleanup_all_changes(tasks.drop_last()) + cleanup_changes(tasks.last())
    }
}

/// Deletes the stored records that belong to `step` alone, logging each
/// removal.
pub fn cleanup_step(store: &mut ConfigStore, step: &TaskStep)
    ensures
        final(store)@ == cleanup_spec(old(store)@, *step),
        final(store).pending() == old(store).pending() + cleanup_changes(*step),
        final(store).logged_since(*old(store)),
{
    proof {
        ConfigStore::lemma_logged_refl(*store);
    }
    match step.action {
        TaskActionType::ImageMatch => {
            let (image_id, fail_id) = unpack_image_match(step.param);
            delete_image(store, image_id as u64);
            let ghost s1 = *store;
            if fail_id != 0 {
                delete_msg(store, fail_id as u64);
            }
            proof {
                if fail_id != 0 {
                    ConfigStore::lemma_logged_trans(*old(store), s1, *store);
                }
            }
            let ghost s2 = *store;

            let window_id = step.extra >> 10u32;
            let e = step.extra;
            assert(window_id == e / 1024) by (bit_vector)
                requires
                    window_id == e >> 10u32,
            ;
            if window_id != 0 {
                delete_msg(store, window_id as u64);
            }
            proof {
                if window_id != 0 {
                    ConfigStore::lemma_logged_trans(*old(store), s2, *store);
                }
                assert(store.pending() =~= old(store).pending() + cleanup_changes(*step));
            }
        },
        TaskActionType::Notify | TaskActionType::CopyText | TaskActionType::Comment | TaskActionType::OpenProgram => {
            if step.param != 0 {
                delete_msg(store, step.param);
            }
            assert(store.pending() =~= old(store).pending() + cleanup_changes(*step));
        },
        TaskActionType::MouseMove => {
            let (x, _y) = unpack_move(step.param);
            assert((x == -2i32) == ((x as u32) == 0xFFFF_FFFEu32)) by (bit_vector);
            if x == -2 {
                let msg_id = (step.param >> 32u64) as u32;
                let p = step.param;
                assert(msg_id == p / 0x1_0000_0000) by (bit_vector)
                    requires
                        msg_id == (p >> 32u64) as u32,
                ;
                if msg_id != 0 {
                    delete_msg(store, msg_id as u64);
                }
            }
            assert(store.pending() =~= old(store).pending() + cleanup_changes(*step));
        },
        _ => {
            assert(store.pending() =~= old(store).pending() + cleanup_changes(*step));
        },
    }
}

/// Deletes step `idx` and the records that belong to it, and saves the list.
pub fn delete_step(store: &mut ConfigStore, tasks: &mut Vec<TaskStep>, idx: usize)
    requires
        idx < old(tasks)@.len(),
    ensures
        final(tasks)@ == old(tasks)@.remove(idx as int),
        final(store)@.config == cleanup_spec(old(store)@, old(tasks)@[idx as int]).config.insert(
            "tasks"@,
            encode_spec(final(tasks)@),
        ),
        final(store)@.images == cleanup_spec(old(store)@, old(tasks)@[idx as int]).images,
        final(store).pending() == (old(store).pending() + cleanup_changes(old(tasks)@[idx as int])).push(
            ChangeView::SetValue("tasks"@, encode_spec(final(tasks)@)),
        ),
        final(store).logged_since(*old(store)),
{
    let step = tasks[idx];
    cleanup_step(store, &step);
    let ghost mid = *store;
    tasks.remove(idx);
    save_tasks(store, tasks.as_slice());
    proof {
        ConfigStore::lemma_logged_trans(*old(store), mid, *store);
    }
}

/// Deletes every step and the records that belong to them, and saves the
/// empty list.
pub fn clear_steps(store: &mut ConfigStore, tasks: &mut Vec<TaskStep>)
    ensures
        final(tasks)@.len() == 0,
        final(store)@.config == cleanup_all(old(store)@, old(tasks)@).config.insert("tasks"@, encode_spec(Seq::empty())),
        final(store)@.images == cleanup_all(old(store)@, old(tasks)@).images,
        final(store).pending() == (old(store).pending() + cleanup_all_changes(old(tasks)@)).push(
            ChangeView::SetValue("tasks"@, encode_spec(Seq::empty())),
        ),
        final(store).logged_since(*old(store)),
{
    let mut i: usize = 0;
    let n = tasks.len();
    proof {
        ConfigStore::lemma_logged_refl(*store);
        assert(tasks@.take(0) =~= Seq::<TaskStep>::empty());
        assert(store.pending() =~= old(store).pending() + cleanup_all_changes(Seq::<TaskStep>::empty()));
    }
    while i < n
        invariant
            n == tasks@.len(),
            tasks@ == old(tasks)@,
            0 <= i <= n,
            store@ == cleanup_all(old(store)@, tasks@.take(i as int)),
            store.pending() == old(store).pending() + cleanup_all_changes(tasks@.take(i as int)),
            store.logged_since(*old(store)),
        decreases n - i,
    {
        let step = tasks[i];
        let ghost before = *store;
        cleanup_step(store, &step);
        proof {
            ConfigStore::lemma_logged_trans(*old(store), before, *store);
            assert(tasks@.take(i + 1).drop_last() =~= tasks@.take(i as int));
            assert(tasks@.take(i + 1).last() == step);
            assert(store.pending() =~= old(store).pending() + cleanup_all_changes(tasks@.take(i + 1)));
        }
        i = i + 1;
    }
    assert(tasks@.take(n as int) =~= tasks@);
    tasks.clear();
    assert(tasks@ =~= Seq::<TaskStep>::empty());
    let ghost mid = *store;
    save_tasks(store, tasks.as_slice());
    proof {
        ConfigStore::lemma_logged_trans(*old(store), mid, *store);
    }
}

/// The list with a copy of the selected step right after it; unchanged
/// without a selection in range.
pub open spec fn duplicated(tasks: Seq<TaskStep>, selected: Option<usize>) -> Option<Seq<TaskStep>> {
    match selected {
        Some(i) => if i < tasks.len() {
            Some(tasks.insert(i + 1, tasks[i as int]))
        } else {
            None
        },
        None => None,
    }
}

/// Puts a copy of the selected step right after it, and saves the list;
/// nothing happens without a selection in range.
pub fn duplicate_step(store: &mut ConfigStore, tasks: &mut Vec<TaskStep>, selected: Option<usize>)
    ensures
        match duplicated(old(tasks)@, selected) {
            Some(t) => final(tasks)@ == t && final(store)@.config == old(store)@.config.insert("tasks"@, encode_spec(t))
                && final(store)@.images == old(store)@.images,
            None => final(tasks)@ == old(tasks)@ && final(store)@ == old(store)@,
        },
        final(store).pending() == match duplicated(old(tasks)@, selected) {
            Some(t) => old(store).pending().push(ChangeView::SetValue("tasks"@, encode_spec(t))),
            None => old(store).pending(),
        },
        final(store).logged_since(*old(store)),
{
    proof {
        ConfigStore::lemma_logged_refl(*store);
    }
    if let Some(i) = selected {
        if i < tasks.len() {
            let copy = tasks[i];
            tasks.insert(i + 1, copy);
            save_tasks(store, tasks.as_slice());
        }
    }
}

/// The list with rows `a` and `b` swapped.
pub open spec fn swapped(s: Seq<TaskStep>, a: int, b: int) -> Seq<TaskStep> {
    s.update(a, s[b]).update(b, s[a])
}

/// Swaps two steps, and saves the list.
pub fn swap_steps(store: &mut ConfigStore, tasks: &mut Vec<TaskStep>, a: usize, b: usize)
    requires
        a < old(tasks)@.len(),
        b < old(tasks)@.len(),
    ensures
        final(tasks)@ == swapped(old(tasks)@, a as int, b as int),
        final(store).pending() == old(store).pending().push(ChangeView::SetValue("tasks"@, encode_spec(final(tasks)@))),
        final(store).logged_since(*old(store)),
        final(store)@.config == old(store)@.config.insert("tasks"@, encode_spec(final(tasks)@)),
        final(store)@.images == old(store)@.images,
{
    let x = tasks[a];
    let y = tasks[b];
    tasks.set(a, y);
    tasks.set(b, x);
    save_tasks(store, tasks.as_slice());
}

// ---------------------------------------------------------------------
// Indices that follow the list
// ---------------------------------------------------------------------

/// A row index once row `gone` is deleted: gone with it, moved up when
/// below it, else unchanged.
pub open spec fn index_after_delete(m: Option<usize>, gone: usize) -> Option<usize> {
    match m {
        Some(i) => if i == gone {
            None
        } else if i > gone {
            Some((i - 1) as usize)
        } else {
            Some(i)
        },
        None => None,
    }
}

/// A row index (the selection, the dragged or hovered row) once row `gone`
/// is deleted.
pub fn mark_after_delete(m: Option<usize>, gone: usize) -> (r: Option<usize>)
    ensures
        r == index_after_delete(m, gone),
{
    match m {
        Some(i) => if i == gone {
            None
        } else if i > gone {
            Some(i - 1)
        } else {
            Some(i)
        },
        None => None,
    }
}

/// The selection once rows `a` and `b` swap places.
pub fn mark_after_swap(m: Option<usize>, a: usize, b: usize) -> (r: Option<usize>)
    ensures
        r == (if m == Some(a) { Some(b) } else if m == Some(b) { Some(a) } else { m }),
{
    if m == Some(a) {
        Some(b)
    } else if m == Some(b) {
        Some(a)
    } else {
        m
    }
}

/// An entry tied to a row once row `gone` is deleted: moved up when it
/// belongs to a later row.
pub open spec fn shift_entry<T>(e: (usize, T), gone: usize) -> (usize, T) {
    if e.0 > gone {
        ((e.0 - 1) as usize, e.1)
    } else {
        e
    }
}

/// Entries tied to rows once row `gone` is deleted: its own entries leave,
/// those of later rows move up.
pub open spec fn entries_after_delete<T>(v: Seq<(usize, T)>, gone: usize) -> Seq<(usize, T)>
    decreases v.len(),
{
    if v.len() == 0 {
        Seq::empty()
    } else {
        let rest = entries_after_delete(v.drop_last(), gone);
        if v.last().0 == gone {
            rest
        } else {
            rest.push(shift_entry(v.last(), gone))
        }
    }
}

/// Entries that point inside a list of `n` rows still point inside it
/// once row `gone` is deleted and the list has `n - 1` rows: no later
/// frame looks up a row that is gone.
pub proof fn lemma_entries_stay_in_list<T>(v: Seq<(usize, T)>, gone: usize, n: nat)
    requires
        gone < n,
        forall|k: int| 0 <= k < v.len() ==> (#[trigger] v[k]).0 < n,
    ensures
        forall|k: int|
            0 <= k < entries_after_delete(v, gone).len() ==> (#[trigger] entries_after_delete(v, gone)[k]).0 < n - 1,
    decreases v.len(),
{
    if v.len() > 0 {
        let init = v.drop_last();
        assert forall|k: int| 0 <= k < init.len() implies (#[trigger] init[k]).0 < n by {
            assert(init[k] == v[k]);
        }
        lemma_entries_stay_in_list(init, gone, n);
        let rest = entries_after_delete(init, gone);
        let r = entries_after_delete(v, gone);
        assert(v.last() == v[v.len() - 1]);
        if v.last().0 != gone {
            assert(r == rest.push(shift_entry(v.last(), gone)));
            assert forall|k: int| 0 <= k < r.len() implies (#[trigger] r[k]).0 < n - 1 by {
                if k < rest.len() {
                    assert(r[k] == rest[k]);
                }
            }
        }
    }
}

/// Entries tied to rows (a deletion in progress) once row `gone` is
/// deleted.
pub fn drop_row_entries<T: Copy>(v: &Vec<(usize, T)>, gone: usize) -> (r: Vec<(usize, T)>)
    ensures
        r@ == entries_after_delete(v@, gone),
{
    let mut out: Vec<(usize, T)> = Vec::new();
    let mut i: usize = 0;
    while i < v.len()
        invariant
            0 <= i <= v@.len(),
            out@ == entries_after_delete(v@.take(i as int), gone),
        decreases v@.len() - i,
    {
        let e = v[i];
        assert(v@.take(i + 1).drop_last() =~= v@.take(i as int));
        if e.0 != gone {
            if e.0 > gone {
                out.push((e.0 - 1, e.1));
            } else {
                out.push(e);
            }
        }
        i = i + 1;
    }
    assert(v@.take(v@.len() as int) =~= v@);
    out
}

/// Entries tied to rows (a swap animation) once row `gone` is deleted, in
/// the order the list view applies it: later rows move up first, then the
/// entries at `gone` leave, so the entries of `gone` and of the row after
/// it both leave.
pub open spec fn offsets_after_delete<T>(v: Seq<(usize, T)>, gone: usize) -> Seq<(usize, T)>
    decreases v.len(),
{
    if v.len() == 0 {
        Seq::empty()
    } else {
        let rest = offsets_after_delete(v.drop_last(), gone);
        let e = shift_entry(v.last(), gone);
        if e.0 == gone {
            rest
        } else {
            rest.push(e)
        }
    }
}

/// Entries tied to rows (a swap animation) once row `gone` is deleted.
pub fn shift_row_offsets<T: Copy>(v: &Vec<(usize, T)>, gone: usize) -> (r: Vec<(usize, T)>)
    ensures
        r@ == offsets_after_delete(v@, gone),
{
    let mut out: Vec<(usize, T)> = Vec::new();
    let mut i: usize = 0;
    while i < v.len()
        invariant
            0 <= i <= v@.len(),
            out@ == offsets_after_delete(v@.take(i as int), gone),
        decreases v@.len() - i,
    {
        let e = v[i];
        assert(v@.take(i + 1).drop_last() =~= v@.take(i as int));
        let moved = if e.0 > gone {
            (e.0 - 1, e.1)
        } else {
            e
        };
        if moved.0 != gone {
            out.push(moved);
        }
        i = i + 1;
    }
    assert(v@.take(v@.len() as int) =~= v@);
    out
}

/// Whether a sequence of row indices goes from the largest to the smallest.
pub open spec fn descending(s: Seq<usize>) -> bool {
    forall|i: int, j: int| 0 <= i < j < s.len() ==> s[i] >= s[j]
}

/// The rows whose deletion has finished, largest first, so that deleting
/// them one after the other does not shift the rows still to delete.
pub fn deletion_order(rows: &Vec<usize>) -> (r: Vec<usize>)
    ensures
        descending(r@),
        r@.to_multiset() == rows@.to_multiset(),
{
    let mut out: Vec<usize> = Vec::new();
    let mut i: usize = 0;
    assert(rows@.take(0) =~= out@);
    while i < rows.len()
        invariant
            0 <= i <= rows@.len(),
            descending(out@),
            out@.to_multiset() == rows@.take(i as int).to_multiset(),
        decreases rows@.len() - i,
    {
        let x = rows[i];
        let mut pos: usize = 0;
        while pos < out.len() && out[pos] >= x
            invariant
                0 <= pos <= out@.len(),
                forall|k: int| 0 <= k < pos ==> out@[k] >= x,
            decreases out@.len() - pos,
        {
            pos = pos + 1;
        }
        let ghost before = out@;
        out.insert(pos, x);
        assert(forall|k: int| pos <= k < before.len() ==> before[k] <= x) by {
            assert forall|k: int| pos <= k < before.len() implies before[k] <= x by {
                if pos < before.len() {
                    assert(before[pos as int] < x);
                    if k > pos {
                        assert(before[pos as int] >= before[k]);
                    }
                }
            }
        }
        assert(descending(out@));
        assert(rows@.take(i + 1) =~= rows@.take(i as int).push(x));
        proof {
            vstd::seq_lib::to_multiset_insert(before, pos as int, x);
            vstd::seq_lib::to_multiset_build(rows@.take(i as int), x);
        }
        i = i + 1;
    }
    assert(rows@.take(rows@.len() as int) =~= rows@);
    out
}

// ---------------------------------------------------------------------
// Comment groups
// ---------------------------------------------------------------------

/// Whether a step opens a comment group: a comment covering `extra > 0`
/// rows after it.
pub open spec fn opens_group(step: TaskStep) -> bool {
    step.action == TaskActionType::Comment && step.extra > 0
}

/// After the first `k` rows: how many more rows the open group covers, and
/// the row of its comment.
pub open spec fn cover_walk(tasks: Seq<TaskStep>, k: int) -> (int, int)
    decreases k,
{
    if k <= 0 {
        (0, 0)
    } else {
        let (rem, ci) = cover_walk(tasks, k - 1);
        if opens_group(tasks[k - 1]) {
            (tasks[k - 1].extra as int, k - 1)
        } else if rem > 0 {
            (rem - 1, ci)
        } else {
            (rem, ci)
        }
    }
}

/// Row `k`'s place in a group: the row of its comment and how many rows of
/// the group are left from it on (a comment counts itself and its rows).
pub open spec fn cover_row(tasks: Seq<TaskStep>, k: int) -> Option<(int, int)> {
    let (rem, ci) = cover_walk(tasks, k);
    if opens_group(tasks[k]) {
        Some((k, tasks[k].extra + 1))
    } else if rem > 0 {
        Some((ci, rem))
    } else {
        None
    }
}

/// Every row's place in a group; when the last group runs past the end of
/// the list, the last row is marked as the group's last.
pub open spec fn coverage_spec(tasks: Seq<TaskStep>) -> Seq<Option<(int, int)>> {
    let (rem, ci) = cover_walk(tasks, tasks.len() as int);
    Seq::new(tasks.len(), |i: int| if rem > 0 && i == tasks.len() - 1 { Some((ci, 1)) } else { cover_row(tasks, i) })
}

/// A coverage entry as integers.
pub open spec fn cover_view(e: Option<(usize, u64)>) -> Option<(int, int)> {
    match e {
        Some((c, r)) => Some((c as int, r as int)),
        None => None,
    }
}

/// Every row's place in a comment group: the row of the comment and how
/// many rows of the group are left from it on.
pub fn comment_coverage(tasks: &Vec<TaskStep>) -> (r: Vec<Option<(usize, u64)>>)
    ensures
        r@.len() == tasks@.len(),
        forall|i: int| 0 <= i < tasks@.len() ==> cover_view(#[trigger] r@[i]) == coverage_spec(tasks@)[i],
{
    let n = tasks.len();
    let mut out: Vec<Option<(usize, u64)>> = Vec::new();
    let mut rem: u64 = 0;
    let mut ci: usize = 0;
    let mut k: usize = 0;
    while k < n
        invariant
            n == tasks@.len(),
            0 <= k <= n,
            out@.len() == k,
            (rem as int, ci as int) == cover_walk(tasks@, k as int),
            rem <= u32::MAX,
            forall|i: int| 0 <= i < k ==> cover_view(#[trigger] out@[i]) == cover_row(tasks@, i),
        decreases n - k,
    {
        let step = tasks[k];
        if step.action == TaskActionType::Comment && step.extra > 0 {
            rem = step.extra as u64;
            ci = k;
            out.push(Some((k, rem + 1)));
        } else if rem > 0 {
            out.push(Some((ci, rem)));
            rem = rem - 1;
        } else {
            out.push(None);
        }
        k = k + 1;
    }
    if rem > 0 && n > 0 {
        out.set(n - 1, Some((ci, 1)));
    }
    out
}

/// Where row `i` is once rows `a` and `b` swap places.
pub open spec fn row_after_swap(i: int, a: int, b: int) -> int {
    if i == a {
        b
    } else if i == b {
        a
    } else {
        i
    }
}

/// Dragging a row onto another and back gives the list back, and a row
/// index that follows the swap (see [`mark_after_swap`]) still points at
/// the same step.
pub proof fn lemma_swap_twice(s: Seq<TaskStep>, a: int, b: int)
    requires
        0 <= a < s.len(),
        0 <= b < s.len(),
    ensures
        swapped(swapped(s, a, b), a, b) == s,
        forall|i: int| 0 <= i < s.len() ==> swapped(s, a, b)[row_after_swap(i, a, b)] == #[trigger] s[i],
{
    assert(swapped(swapped(s, a, b), a, b) =~= s);
}

/// After row `gone` is deleted, every other row index that follows the
/// deletion (see [`mark_after_delete`]) still points at the same step.
pub proof fn lemma_delete_keeps_rows(s: Seq<TaskStep>, gone: usize, i: usize)
    requires
        gone < s.len(),
        i < s.len(),
        i != gone,
    ensures
        index_after_delete(Some(i), gone) matches Some(j) && j < s.remove(gone as int).len() && s.remove(
            gone as int,
        )[j as int] == s[i as int],
{
}

/// A comment that opens a group covers the rows after it, counting down:
/// the comment itself has `extra + 1` rows left, the `j`-th row after it
/// `extra - j + 1`, as long as no other group opens in between; the row
/// right after the group is in none.
pub proof fn lemma_comment_covers(tasks: Seq<TaskStep>, c: int, j: int)
    requires
        0 <= c,
        c + j < tasks.len(),
        opens_group(tasks[c]),
        0 <= j <= tasks[c].extra + 1,
        forall|k: int| c < k <= c + j ==> !opens_group(#[trigger] tasks[k]),
    ensures
        j == 0 ==> cover_row(tasks, c) == Some((c, tasks[c].extra + 1)),
        1 <= j <= tasks[c].extra ==> cover_row(tasks, c + j) == Some((c, tasks[c].extra - j + 1)),
        j == tasks[c].extra + 1 ==> cover_row(tasks, c + j) is None,
{
    lemma_walk_after_comment(tasks, c, j);
}

proof fn lemma_walk_after_comment(tasks: Seq<TaskStep>, c: int, j: int)
    requires
        0 <= c,
        c + j < tasks.len(),
        opens_group(tasks[c]),
        0 <= j <= tasks[c].extra + 1,
        forall|k: int| c < k <= c + j ==> !opens_group(#[trigger] tasks[k]),
    ensures
        j >= 1 ==> cover_walk(tasks, c + j) == (tasks[c].extra - (j - 1), c),
    decreases j,
{
    if j > 1 {
        lemma_walk_after_comment(tasks, c, j - 1);
        assert(!opens_group(tasks[c + j - 1]));
    }
}

} // verus!
