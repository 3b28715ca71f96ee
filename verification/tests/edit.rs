use beer_mouse_clicker::config::{get_str, load_image, load_msg, save_image, save_msg};
use beer_mouse_clicker::constants::{pack_combo, pack_image_match, pack_move, TaskActionType, TaskStep};
use beer_mouse_clicker::edit::{
    add_plain_step, add_step, apply_edit, first_key_down, first_wait_key, start_add, start_edit, sync_hold,
    sync_jitter, AddState, EditState,
};
use beer_mouse_clicker::store::ConfigStore;

fn step(action: TaskActionType, param: u64, extra: u32) -> TaskStep {
    TaskStep { action, param, extra }
}

#[test]
fn the_edit_form_opens_with_the_step() {
    let store = ConfigStore::new();
    match start_edit(&store, &step(TaskActionType::MouseClick, 1 | (250 << 8), 4), "") {
        EditState::Click { button, hold_ms, hold_str, action_type, jitter, jitter_str } => {
            assert_eq!((button, hold_ms, jitter), (1, 250, 4));
            assert_eq!(hold_str, "250");
            assert_eq!(jitter_str, "4");
            assert_eq!(action_type, TaskActionType::MouseClick);
        },
        _ => panic!("wrong form"),
    }
    match start_edit(&store, &step(TaskActionType::WaitUntil, 7 * 60 + 5, 0), "") {
        EditState::WaitUntil { hour_str, minute_str } => {
            assert_eq!(hour_str, "7");
            assert_eq!(minute_str, "05");
        },
        _ => panic!("wrong form"),
    }
    match start_edit(&store, &step(TaskActionType::Comment, 0, 0), "") {
        EditState::Comment { msg, count_str } => {
            assert_eq!(msg, "");
            assert_eq!(count_str, "");
        },
        _ => panic!("wrong form"),
    }
}

#[test]
fn the_move_form_picks_its_preset() {
    let mut store = ConfigStore::new();
    let t = save_msg(&mut store, "Calc");
    match start_edit(&store, &step(TaskActionType::MouseMove, pack_move(-2, t as i32), 0), "0.0") {
        EditState::Move { preset, window_title, custom_x, is_relative, secs_str, .. } => {
            assert_eq!(preset, 7);
            assert_eq!(window_title, "Calc");
            assert_eq!(custom_x, "");
            assert!(!is_relative);
            assert_eq!(secs_str, "0.0");
        },
        _ => panic!("wrong form"),
    }
    match start_edit(&store, &step(TaskActionType::MouseMove, pack_move(0, -100), 0), "") {
        EditState::Move { preset, .. } => assert_eq!(preset, 4),
        _ => panic!("wrong form"),
    }
    match start_edit(&store, &step(TaskActionType::MouseMove, pack_move(-7, 8), 0x0100_0000 | 1200), "1.2") {
        EditState::Move { preset, custom_x, custom_y, is_relative, secs_str, .. } => {
            assert_eq!(preset, 6);
            assert_eq!(custom_x, "-7");
            assert_eq!(custom_y, "8");
            assert!(is_relative);
            assert_eq!(secs_str, "1.2");
        },
        _ => panic!("wrong form"),
    }
}

#[test]
fn the_image_form_reads_its_records() {
    let mut store = ConfigStore::new();
    let img = save_image(&mut store, &[5, 6]);
    let fail = save_msg(&mut store, "missing");
    let s = step(TaskActionType::ImageMatch, pack_image_match(img as u32, fail as u32), 90 | 0x100);
    match start_edit(&store, &s, "") {
        EditState::ImageMatch { image_id, full_image, confidence_str, fail_msg, move_mouse, ignore_failure, window_title, .. } => {
            assert_eq!(image_id, img as u32);
            assert_eq!(full_image, Some(vec![5, 6]));
            assert_eq!(confidence_str, "90");
            assert_eq!(fail_msg, "missing");
            assert!(move_mouse);
            assert!(!ignore_failure);
            assert_eq!(window_title, "");
        },
        _ => panic!("wrong form"),
    }
}

#[test]
fn confirming_an_unchanged_form_keeps_the_step() {
    let mut store = ConfigStore::new();
    for s in [
        step(TaskActionType::MouseClick, 2 | (700 << 8), 9),
        step(TaskActionType::KeyPress, 0x41 | (350 << 16), 0),
        step(TaskActionType::Delay, 1234, 0),
        step(TaskActionType::MouseWheel, 1, 0),
    ] {
        let mut tasks = vec![s];
        let form = start_edit(&store, &s, "");
        assert!(apply_edit(&mut store, &mut tasks, 0, &form, 0, None));
        assert_eq!(tasks, vec![s]);
    }
}

#[test]
fn editing_clamps_and_orders() {
    let mut store = ConfigStore::new();
    let mut tasks = vec![step(TaskActionType::Delay, 5, 0), step(TaskActionType::RandomDelay, 0, 0), step(TaskActionType::WaitUntil, 0, 0)];
    apply_edit(&mut store, &mut tasks, 0, &EditState::Delay { ms_str: "99999".to_string() }, 0, None);
    assert_eq!(tasks[0].param, 60000);
    apply_edit(&mut store, &mut tasks, 0, &EditState::Delay { ms_str: "abc".to_string() }, 0, None);
    assert_eq!(tasks[0].param, 100);
    apply_edit(
        &mut store,
        &mut tasks,
        1,
        &EditState::RandomDelay { min_str: "900".to_string(), max_str: "0".to_string() },
        0,
        None,
    );
    assert_eq!(tasks[1].param, 1 | (900u64 << 32));
    apply_edit(
        &mut store,
        &mut tasks,
        2,
        &EditState::WaitUntil { hour_str: "30".to_string(), minute_str: "7".to_string() },
        0,
        None,
    );
    assert_eq!(tasks[2], step(TaskActionType::WaitUntil, 23 * 60 + 7, 0));
    assert_eq!(get_str(&store, "tasks", ""), format!("1:100:0;12:{}:0;14:1387:0", 1u64 | (900u64 << 32)));
}

#[test]
fn editing_a_message_replaces_it() {
    let mut store = ConfigStore::new();
    let old = save_msg(&mut store, "old");
    let mut tasks = vec![step(TaskActionType::Notify, old, 0)];
    apply_edit(&mut store, &mut tasks, 0, &EditState::Notify { msg: "new".to_string() }, 0, None);
    assert_eq!(load_msg(&store, old), "");
    assert_eq!(load_msg(&store, tasks[0].param), "new");
    assert_eq!(tasks[0].param, 2);
}

#[test]
fn editing_an_image_match() {
    let mut store = ConfigStore::new();
    let img = save_image(&mut store, &[1]);
    let fail = save_msg(&mut store, "f");
    let win = save_msg(&mut store, "w");
    let mut tasks = vec![step(TaskActionType::ImageMatch, pack_image_match(img as u32, fail as u32), 80 | ((win as u32) << 10))];
    let form = EditState::ImageMatch {
        image_id: img as u32,
        new_path: "x.png".to_string(),
        new_thumbnail: None,
        full_image: None,
        show_preview: false,
        preview_w: 0,
        preview_h: 0,
        confidence_str: "95".to_string(),
        fail_msg: String::new(),
        move_mouse: false,
        ignore_failure: true,
        window_title: "Editor".to_string(),
    };
    assert!(apply_edit(&mut store, &mut tasks, 0, &form, 0, Some(vec![9, 9])));
    let s = tasks[0];
    let new_win = (s.extra >> 10) as u64;
    assert_eq!(s.extra & 0x3FF, 95 | 0x200);
    assert_eq!(load_msg(&store, new_win), "Editor");
    assert_eq!(load_msg(&store, win), "");
    assert_eq!(load_msg(&store, fail), "");
    assert_eq!(s.param >> 32, 0);
    assert_eq!(load_image(&store, s.param & 0xFFFF_FFFF), Some(vec![9, 9]));
    assert_eq!(load_image(&store, img), Some(vec![1]));
}

#[test]
fn closed_forms_change_nothing() {
    let mut store = ConfigStore::new();
    let mut tasks = vec![step(TaskActionType::Delay, 5, 0)];
    assert!(!apply_edit(&mut store, &mut tasks, 0, &EditState::Closed, 0, None));
    assert!(!add_step(&mut store, &mut tasks, &AddState::PickType, 0, None));
    assert!(store.take_changes().is_empty());
    assert_eq!(tasks.len(), 1);
}

#[test]
fn the_add_forms_start_with_their_defaults() {
    match start_add(TaskActionType::Delay) {
        Some(AddState::ConfigDelay { ms_str }) => assert_eq!(ms_str, "100"),
        _ => panic!("wrong form"),
    }
    match start_add(TaskActionType::WaitUntil) {
        Some(AddState::ConfigWaitUntil { hour_str, minute_str }) => {
            assert_eq!(hour_str, "12");
            assert_eq!(minute_str, "00");
        },
        _ => panic!("wrong form"),
    }
    assert!(start_add(TaskActionType::LostFocus).is_none());
    match start_add(TaskActionType::ImageMatch) {
        Some(AddState::ConfigImageMatch { confidence_str, move_mouse, .. }) => {
            assert_eq!(confidence_str, "85");
            assert!(move_mouse);
        },
        _ => panic!("wrong form"),
    }
}

#[test]
fn adding_steps() {
    let mut store = ConfigStore::new();
    let mut tasks = Vec::new();
    assert!(add_step(&mut store, &mut tasks, &AddState::ConfigDelay { ms_str: "0".to_string() }, 0, None));
    assert!(add_step(
        &mut store,
        &mut tasks,
        &AddState::ConfigClick { button: 1, hold_ms: 300, hold_str: "300".to_string(), action_type: TaskActionType::MouseClick, jitter_str: "80".to_string() },
        0,
        None
    ));
    assert!(add_step(&mut store, &mut tasks, &AddState::ConfigComboKey { preset: 0 }, 0, None));
    assert!(!add_step(&mut store, &mut tasks, &AddState::ConfigNotify { msg: String::new() }, 0, None));
    assert!(add_step(&mut store, &mut tasks, &AddState::ConfigNotify { msg: "hi".to_string() }, 0, None));
    assert!(add_step(
        &mut store,
        &mut tasks,
        &AddState::ConfigMove {
            preset: 5,
            secs_str: "0.5".to_string(),
            custom_x: "-3".to_string(),
            custom_y: "junk".to_string(),
            window_title: String::new(),
            is_relative: true
        },
        500,
        None
    ));
    assert!(add_step(
        &mut store,
        &mut tasks,
        &AddState::ConfigWaitInput { msg: "ok".to_string(), copy_input: true, ignore_fail: false, use_regex: true },
        0,
        None
    ));
    add_plain_step(&mut store, &mut tasks, TaskActionType::HideWindow);
    assert_eq!(tasks[0], step(TaskActionType::Delay, 1, 0));
    assert_eq!(tasks[1], step(TaskActionType::MouseClick, 1 | (300 << 8), 50));
    assert_eq!(tasks[2], step(TaskActionType::ComboKey, pack_combo(&[0x5B, 0x44]), 2));
    assert_eq!(tasks[3].action, TaskActionType::Notify);
    assert_eq!(load_msg(&store, tasks[3].param), "hi");
    assert_eq!(tasks[4], step(TaskActionType::MouseMove, pack_move(-3, 0), 500 | 0x0100_0000));
    assert_eq!(tasks[5].extra, 5);
    assert_eq!(load_msg(&store, tasks[5].param), "ok");
    assert_eq!(tasks[6], step(TaskActionType::HideWindow, 0, 0));
    assert_eq!(tasks.len(), 7);
}

#[test]
fn adding_an_image_match_needs_the_file() {
    let mut store = ConfigStore::new();
    let mut tasks = Vec::new();
    let form = AddState::ConfigImageMatch {
        path: "a.png".to_string(),
        confidence_str: "0".to_string(),
        fail_msg: "nope".to_string(),
        move_mouse: true,
        ignore_failure: false,
        window_title: String::new(),
        thumbnail: None,
        full_image: None,
        show_preview: false,
        preview_w: 0,
        preview_h: 0,
    };
    assert!(!add_step(&mut store, &mut tasks, &form, 0, None));
    assert!(add_step(&mut store, &mut tasks, &form, 0, Some(vec![4])));
    let s = tasks[0];
    assert_eq!(s.extra, 1 | 0x100);
    assert_eq!(load_image(&store, s.param & 0xFFFF_FFFF), Some(vec![4]));
    assert_eq!(load_msg(&store, s.param >> 32), "nope");
}

#[test]
fn adding_a_window_move_saves_its_title() {
    let mut store = ConfigStore::new();
    let mut tasks = Vec::new();
    let form = AddState::ConfigMove {
        preset: 7,
        secs_str: "0.0".to_string(),
        custom_x: String::new(),
        custom_y: String::new(),
        window_title: "Paint".to_string(),
        is_relative: false,
    };
    assert!(add_step(&mut store, &mut tasks, &form, 0, None));
    assert_eq!(tasks[0], step(TaskActionType::MouseMove, pack_move(-2, 1), 0));
    assert_eq!(load_msg(&store, 1), "Paint");
}

#[test]
fn form_numbers_follow_their_text() {
    assert_eq!(sync_hold(5, "70000"), 60000);
    assert_eq!(sync_hold(5, "x"), 5);
    assert_eq!(sync_jitter(2, "9"), 9);
    assert_eq!(sync_jitter(2, "99"), 50);
}

#[test]
fn recording_a_key() {
    let mut down = vec![false; 256];
    down[0x01] = true;
    assert_eq!(first_key_down(&down), None);
    down[0x43] = true;
    down[0x41] = true;
    assert_eq!(first_key_down(&down), Some(0x41));
    let mut states = vec![0u16; 256];
    states[0x07] = 0x8000;
    assert_eq!(first_wait_key(&states), None);
    states[0x20] = 0x0001;
    assert_eq!(first_wait_key(&states), Some(0x20));
}
