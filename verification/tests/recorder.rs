use beer_mouse_clicker::constants::{pack_combo, pack_move, TaskActionType, TaskStep};
use beer_mouse_clicker::recorder::{compress_moves, hook_message, recording_start_step, RecEvent, Recorder};

fn step(action: TaskActionType, param: u64, extra: u32) -> TaskStep {
    TaskStep { action, param, extra }
}

const REL: u32 = 0x0100_0000;

#[test]
fn recording_starts_with_a_move_to_the_pointer() {
    assert_eq!(recording_start_step(12, -3), step(TaskActionType::MouseMove, pack_move(12, -3), 0));
}

#[test]
fn clicks_moves_and_wheel_turns_become_steps() {
    let none = vec![false; 256];
    let mut r = Recorder::start(1000, 10, 10, &none);
    let mut tasks = Vec::new();
    // same place after 100 ms: a pause, then the click
    r.on_event(&mut tasks, RecEvent::MouseDown { button: 0, x: 10, y: 10 }, 1100);
    assert_eq!(tasks, vec![step(TaskActionType::Delay, 100, 0), step(TaskActionType::MouseClick, 0, 0)]);
    // elsewhere too soon: only the click, but the position moves on
    r.on_event(&mut tasks, RecEvent::MouseDown { button: 1, x: 20, y: 15 }, 1110);
    assert_eq!(tasks[2], step(TaskActionType::MouseClick, 1, 0));
    assert_eq!(r.last_pos, (20, 15));
    // elsewhere later: a relative move first
    r.on_event(&mut tasks, RecEvent::MouseDown { button: 2, x: 25, y: 5 }, 1200);
    assert_eq!(tasks[3], step(TaskActionType::MouseMove, pack_move(5, -10), 90 | REL));
    assert_eq!(tasks[4], step(TaskActionType::MouseClick, 2, 0));
    r.on_event(&mut tasks, RecEvent::MouseMove { dx: 3, dy: 4 }, 71200);
    assert_eq!(tasks[5], step(TaskActionType::MouseMove, pack_move(3, 4), 60000 | REL));
    assert_eq!(r.last_pos, (28, 9));
    r.on_event(&mut tasks, RecEvent::Wheel { up: false }, 71210);
    assert_eq!(tasks[6], step(TaskActionType::MouseWheel, 0, 0));
    assert_eq!(tasks.len(), 7);
}

#[test]
fn key_presses_and_long_presses() {
    let mut down = vec![false; 256];
    let mut r = Recorder::start(0, 0, 0, &down);
    let mut tasks = Vec::new();
    down[0x41] = true;
    assert!(r.on_keys(&mut tasks, &down, 100, 0x75));
    assert_eq!(tasks, vec![step(TaskActionType::Delay, 100, 0), step(TaskActionType::KeyPress, 0x41, 0)]);
    down[0x41] = false;
    r.on_keys(&mut tasks, &down, 500, 0x75);
    assert_eq!(tasks[1], step(TaskActionType::KeyPress, 0x41 | (400 << 16), 0));
    assert_eq!(tasks.len(), 2);
}

#[test]
fn short_presses_and_the_hotkey() {
    let mut down = vec![false; 256];
    let mut r = Recorder::start(0, 0, 0, &down);
    let mut tasks = Vec::new();
    down[0x75] = true;
    assert!(!r.on_keys(&mut tasks, &down, 10, 0x75));
    assert!(tasks.is_empty());
    down[0x75] = false;
    down[0x42] = true;
    r.on_keys(&mut tasks, &down, 20, 0x75);
    down[0x42] = false;
    r.on_keys(&mut tasks, &down, 100, 0x75);
    assert_eq!(tasks, vec![step(TaskActionType::KeyPress, 0x42, 0)]);
}

#[test]
fn keys_with_modifiers_become_combos() {
    let mut down = vec![false; 256];
    let mut r = Recorder::start(0, 0, 0, &down);
    let mut tasks = Vec::new();
    down[0xA2] = true;
    down[0x43] = true;
    r.on_keys(&mut tasks, &down, 10, 0x75);
    assert_eq!(
        tasks,
        vec![
            step(TaskActionType::ComboKey, pack_combo(&[0xA2, 0x43]), 2),
            step(TaskActionType::ComboKey, pack_combo(&[0xA2, 0xA2]), 2),
        ]
    );
}

#[test]
fn a_long_held_combo_becomes_explicit_downs_and_ups() {
    let mut down = vec![false; 256];
    let mut r = Recorder::start(0, 0, 0, &down);
    let mut tasks = vec![step(TaskActionType::ComboKey, pack_combo(&[0xA2, 0x43]), 2)];
    down[0x43] = true;
    r.on_keys(&mut tasks, &down, 10, 0x75);
    tasks.truncate(1);
    tasks[0] = step(TaskActionType::ComboKey, pack_combo(&[0xA2, 0x43]), 2);
    down[0x43] = false;
    r.on_keys(&mut tasks, &down, 1010, 0x75);
    assert_eq!(
        tasks,
        vec![
            step(TaskActionType::KeyDown, 0xA2, 0),
            step(TaskActionType::KeyDown, 0x43, 0),
            step(TaskActionType::Delay, 1000, 0),
            step(TaskActionType::KeyUp, 0x43, 0),
            step(TaskActionType::KeyUp, 0xA2, 0),
        ]
    );
}

#[test]
fn consecutive_moves_merge() {
    let mut tasks = vec![
        step(TaskActionType::MouseMove, pack_move(1, 2), 30 | REL),
        step(TaskActionType::MouseMove, pack_move(3, -4), 50 | REL),
        step(TaskActionType::MouseMove, pack_move(5, 5), 20),
        step(TaskActionType::MouseClick, 0, 0),
        step(TaskActionType::MouseMove, pack_move(1, 1), 10 | REL),
    ];
    compress_moves(&mut tasks);
    assert_eq!(
        tasks,
        vec![
            step(TaskActionType::MouseMove, pack_move(4, -2), 50 | REL),
            step(TaskActionType::MouseMove, pack_move(5, 5), 20),
            step(TaskActionType::MouseClick, 0, 0),
            step(TaskActionType::MouseMove, pack_move(1, 1), 10 | REL),
        ]
    );
    let once = tasks.clone();
    compress_moves(&mut tasks);
    assert_eq!(tasks, once);
}

#[test]
fn hook_messages() {
    let u = hook_message(0, 0x0201, 0, 5, 6, (0, 0));
    assert_eq!(u.event, Some(RecEvent::MouseDown { button: 0, x: 5, y: 6 }));
    assert_eq!(u.last_pos, Some((5, 6)));
    let u = hook_message(0, 0x020B, 2 << 16, 5, 6, (0, 0));
    assert_eq!(u.event, Some(RecEvent::MouseDown { button: 4, x: 5, y: 6 }));
    let u = hook_message(0, 0x020B, 1 << 16, 5, 6, (0, 0));
    assert_eq!(u.event, Some(RecEvent::MouseDown { button: 3, x: 5, y: 6 }));
    let u = hook_message(0, 0x020A, 0xFF88 << 16, 0, 0, (0, 0));
    assert_eq!(u.event, Some(RecEvent::Wheel { up: false }));
    let u = hook_message(0, 0x020A, 120 << 16, 0, 0, (0, 0));
    assert_eq!(u.event, Some(RecEvent::Wheel { up: true }));
    let u = hook_message(0, 0x020A, 0, 0, 0, (0, 0));
    assert_eq!(u.event, None);
    let u = hook_message(0, 0x0200, 0, 13, 14, (10, 10));
    assert_eq!(u.event, None);
    assert_eq!(u.last_pos, Some((13, 14)));
    assert_eq!(u.last_move, None);
    let u = hook_message(0, 0x0200, 0, 14, 14, (10, 10));
    assert_eq!(u.event, Some(RecEvent::MouseMove { dx: 4, dy: 4 }));
    assert_eq!(u.last_move, Some((14, 14)));
    let u = hook_message(1, 0x0201, 0, 5, 6, (0, 0));
    assert_eq!(u.event, None);
    assert_eq!(u.last_pos, None);
}

#[test]
fn far_presses_are_refused_before_recording() {
    let r = Recorder::start(0, i32::MIN, 0, &vec![false; 256]);
    assert!(!r.fits(RecEvent::MouseDown { button: 0, x: i32::MAX, y: 0 }));
    assert!(r.fits(RecEvent::MouseDown { button: 0, x: -1, y: 0 }));
    assert!(r.fits(RecEvent::Wheel { up: true }));
}
