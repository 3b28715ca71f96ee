use beer_mouse_clicker::config::{get_str, load_image, load_msg, save_image, save_msg};
use beer_mouse_clicker::constants::{pack_image_match, pack_move, TaskActionType, TaskStep};
use beer_mouse_clicker::store::{ConfigStore, StoreChange};
use beer_mouse_clicker::tasklist::{
    cleanup_step, clear_steps, comment_coverage, delete_step, deletion_order, drop_row_entries, duplicate_step,
    mark_after_delete, mark_after_swap, shift_row_offsets, swap_steps,
};

fn step(action: TaskActionType, param: u64, extra: u32) -> TaskStep {
    TaskStep { action, param, extra }
}

fn d(ms: u64) -> TaskStep {
    step(TaskActionType::Delay, ms, 0)
}

#[test]
fn a_comment_covers_the_rows_after_it() {
    let tasks = vec![d(1), step(TaskActionType::Comment, 0, 2), d(2), d(3), d(4)];
    let cov = comment_coverage(&tasks);
    assert_eq!(cov, vec![None, Some((1, 3)), Some((1, 2)), Some((1, 1)), None]);
}

#[test]
fn a_comment_without_a_count_covers_nothing() {
    let tasks = vec![step(TaskActionType::Comment, 0, 0), d(2)];
    assert_eq!(comment_coverage(&tasks), vec![None, None]);
}

#[test]
fn a_group_running_past_the_end_closes_on_the_last_row() {
    let tasks = vec![step(TaskActionType::Comment, 0, 5), d(2), d(3)];
    assert_eq!(comment_coverage(&tasks), vec![Some((0, 6)), Some((0, 5)), Some((0, 1))]);
    let tasks = vec![step(TaskActionType::Comment, 0, 5)];
    assert_eq!(comment_coverage(&tasks), vec![Some((0, 1))]);
}

#[test]
fn a_new_comment_starts_a_new_group() {
    let tasks = vec![step(TaskActionType::Comment, 0, 3), d(1), step(TaskActionType::Comment, 0, 1), d(2), d(3)];
    assert_eq!(comment_coverage(&tasks), vec![Some((0, 4)), Some((0, 3)), Some((2, 2)), Some((2, 1)), None]);
}

#[test]
fn row_marks_follow_a_deletion() {
    assert_eq!(mark_after_delete(Some(3), 3), None);
    assert_eq!(mark_after_delete(Some(4), 3), Some(3));
    assert_eq!(mark_after_delete(Some(2), 3), Some(2));
    assert_eq!(mark_after_delete(None, 3), None);
    assert_eq!(mark_after_swap(Some(1), 1, 2), Some(2));
    assert_eq!(mark_after_swap(Some(2), 1, 2), Some(1));
    assert_eq!(mark_after_swap(Some(5), 1, 2), Some(5));
}

#[test]
fn row_entries_follow_a_deletion() {
    let v = vec![(1usize, 'a'), (3, 'b'), (4, 'c'), (0, 'd')];
    assert_eq!(drop_row_entries(&v, 3), vec![(1, 'a'), (3, 'c'), (0, 'd')]);
    // the swap animation loses the entries of the deleted row and of the next one
    assert_eq!(shift_row_offsets(&v, 3), vec![(1, 'a'), (0, 'd')]);
}

#[test]
fn finished_deletions_go_largest_first() {
    assert_eq!(deletion_order(&vec![2, 7, 0, 7, 3]), vec![7, 7, 3, 2, 0]);
    assert_eq!(deletion_order(&vec![]), Vec::<usize>::new());
}

#[test]
fn deleting_a_step_deletes_its_records() {
    let mut store = ConfigStore::new();
    let img = save_image(&mut store, &[1, 2]);
    let fail = save_msg(&mut store, "not found");
    let win = save_msg(&mut store, "Notepad");
    let note = save_msg(&mut store, "hello");
    let mut tasks = vec![
        step(TaskActionType::ImageMatch, pack_image_match(img as u32, fail as u32), 80 | ((win as u32) << 10)),
        step(TaskActionType::Notify, note, 0),
    ];
    delete_step(&mut store, &mut tasks, 0);
    assert_eq!(tasks, vec![step(TaskActionType::Notify, note, 0)]);
    assert_eq!(load_image(&store, img), None);
    assert_eq!(load_msg(&store, fail), "");
    assert_eq!(load_msg(&store, win), "");
    assert_eq!(load_msg(&store, note), "hello");
    assert_eq!(get_str(&store, "tasks", ""), format!("10:{}:0", note));
}

#[test]
fn a_move_to_a_window_owns_its_title() {
    let mut store = ConfigStore::new();
    let title = save_msg(&mut store, "Calc");
    cleanup_step(&mut store, &step(TaskActionType::MouseMove, pack_move(-2, title as i32), 0));
    assert_eq!(load_msg(&store, title), "");
    let other = save_msg(&mut store, "kept");
    cleanup_step(&mut store, &step(TaskActionType::MouseMove, pack_move(5, other as i32), 0));
    assert_eq!(load_msg(&store, other), "kept");
    // a wait for text does not own its message
    cleanup_step(&mut store, &step(TaskActionType::WaitInput, other, 0));
    assert_eq!(load_msg(&store, other), "kept");
}

#[test]
fn clearing_deletes_everything() {
    let mut store = ConfigStore::new();
    let a = save_msg(&mut store, "a");
    let b = save_msg(&mut store, "b");
    let mut tasks = vec![step(TaskActionType::CopyText, a, 0), step(TaskActionType::OpenProgram, b, 0), d(5)];
    clear_steps(&mut store, &mut tasks);
    assert!(tasks.is_empty());
    assert_eq!(load_msg(&store, a), "");
    assert_eq!(load_msg(&store, b), "");
    assert_eq!(get_str(&store, "tasks", "x"), "");
}

#[test]
fn duplicating_and_swapping() {
    let mut store = ConfigStore::new();
    let mut tasks = vec![d(1), d(2)];
    duplicate_step(&mut store, &mut tasks, Some(0));
    assert_eq!(tasks, vec![d(1), d(1), d(2)]);
    duplicate_step(&mut store, &mut tasks, Some(7));
    duplicate_step(&mut store, &mut tasks, None);
    assert_eq!(tasks.len(), 3);
    swap_steps(&mut store, &mut tasks, 0, 2);
    assert_eq!(tasks, vec![d(2), d(1), d(1)]);
    swap_steps(&mut store, &mut tasks, 0, 2);
    assert_eq!(tasks, vec![d(1), d(1), d(2)]);
    assert_eq!(get_str(&store, "tasks", ""), "1:1:0;1:1:0;1:2:0");
}

#[test]
fn swapping_twice_gives_the_list_back_and_the_selection_follows() {
    let mut store = ConfigStore::new();
    let original = vec![d(1), d(2), d(3), d(4)];
    let mut tasks = original.clone();
    swap_steps(&mut store, &mut tasks, 1, 3);
    let sel = mark_after_swap(Some(1), 1, 3);
    assert_eq!(sel, Some(3));
    assert_eq!(tasks[3], original[1]);
    swap_steps(&mut store, &mut tasks, 1, 3);
    assert_eq!(tasks, original);
    assert_eq!(mark_after_swap(sel, 1, 3), Some(1));
}

#[test]
fn a_deletion_keeps_the_other_rows_marked() {
    let mut store = ConfigStore::new();
    let original = vec![d(1), d(2), d(3), d(4)];
    let mut tasks = original.clone();
    delete_step(&mut store, &mut tasks, 1);
    let j = mark_after_delete(Some(3), 1).unwrap();
    assert_eq!(tasks[j], original[3]);
    let j = mark_after_delete(Some(0), 1).unwrap();
    assert_eq!(tasks[j], original[0]);
}

#[test]
fn a_deletion_reaches_the_change_log() {
    let mut store = ConfigStore::new();
    let id = save_msg(&mut store, "hello");
    let mut tasks = vec![step(TaskActionType::Notify, id, 0), d(5)];
    let _ = store.take_changes();
    delete_step(&mut store, &mut tasks, 0);
    let changes = store.take_changes();
    assert_eq!(changes.len(), 2);
    match &changes[0] {
        StoreChange::Remove(k) => assert_eq!(k, &format!("msg_{}", id)),
        other => panic!("unexpected change {:?}", other),
    }
    match &changes[1] {
        StoreChange::SetValue(k, v) => {
            assert_eq!(k, "tasks");
            assert_eq!(v, &get_str(&store, "tasks", ""));
        }
        other => panic!("unexpected change {:?}", other),
    }
}
