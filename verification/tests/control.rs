use beer_mouse_clicker::constants::{TaskActionType, TaskStep};
use beer_mouse_clicker::control::{
    interval_from_input, lock_changes, menu_choice, poll_hotkey, run_toggle, should_auto_start, tip_tick,
    tray_icon_action, HotkeyAction, LockChange, MenuChoice, RunToggle, TrayAction,
};

#[test]
fn the_hotkey_acts_on_the_press_only() {
    let p = poll_hotkey(false, 0x75, true, false, false, false, true);
    assert_eq!(p.action, HotkeyAction::Toggle { show_window: true });
    assert!(p.last_down);
    let p = poll_hotkey(false, 0x75, true, true, false, false, false);
    assert_eq!(p.action, HotkeyAction::Nothing);
    let p = poll_hotkey(false, 0x75, false, true, false, false, false);
    assert_eq!(p.action, HotkeyAction::Nothing);
    assert!(!p.last_down);
}

#[test]
fn the_hotkey_starts_and_stops_recording_first() {
    let p = poll_hotkey(false, 0x75, true, false, true, false, false);
    assert_eq!(p.action, HotkeyAction::StartRecording);
    assert!(!p.rec_armed);
    let p = poll_hotkey(false, 0x75, true, false, false, true, false);
    assert_eq!(p.action, HotkeyAction::StopRecording);
}

#[test]
fn the_hotkey_is_not_read_while_chosen_or_for_mouse_buttons() {
    let p = poll_hotkey(true, 0x75, true, false, false, false, false);
    assert_eq!(p.action, HotkeyAction::Nothing);
    assert!(!p.last_down);
    let p = poll_hotkey(false, 0x01, true, false, false, false, false);
    assert_eq!(p.action, HotkeyAction::Nothing);
    assert!(!p.last_down);
}

#[test]
fn locks_follow_running() {
    assert_eq!(lock_changes(true, true, true, false, false, false), (LockChange::Apply, LockChange::Apply));
    assert_eq!(lock_changes(true, true, true, false, true, true), (LockChange::Keep, LockChange::Apply));
    assert_eq!(lock_changes(true, true, true, true, true, false), (LockChange::Keep, LockChange::Keep));
    assert_eq!(lock_changes(true, true, false, false, true, true), (LockChange::Release, LockChange::Release));
    assert_eq!(lock_changes(false, false, true, false, false, false), (LockChange::Keep, LockChange::Keep));
}

#[test]
fn the_tip_counts_down_then_clears() {
    assert_eq!(tip_tick(2), (1, false));
    assert_eq!(tip_tick(1), (0, true));
    assert_eq!(tip_tick(0), (0, false));
}

#[test]
fn the_interval_is_at_least_ten_ms() {
    assert_eq!(interval_from_input(3), 10);
    assert_eq!(interval_from_input(1500), 1500);
}

#[test]
fn starting_on_launch() {
    let work = vec![TaskStep { action: TaskActionType::Delay, param: 1, extra: 0 }, TaskStep { action: TaskActionType::KeyPress, param: 65, extra: 0 }];
    let idle = vec![TaskStep { action: TaskActionType::Delay, param: 1, extra: 0 }, TaskStep { action: TaskActionType::Notify, param: 1, extra: 0 }];
    assert!(should_auto_start(false, false, true, &work));
    assert!(!should_auto_start(true, false, true, &work));
    assert!(should_auto_start(true, true, false, &work));
    assert!(!should_auto_start(false, true, true, &idle));
    assert!(!should_auto_start(false, true, true, &[]));
}

#[test]
fn tray_clicks() {
    assert_eq!(tray_icon_action(0x0202), TrayAction::ShowWindow);
    assert_eq!(tray_icon_action(0x0203), TrayAction::ShowWindow);
    assert_eq!(tray_icon_action(0x1_0205), TrayAction::OpenMenu);
    assert_eq!(tray_icon_action(0x0200), TrayAction::Nothing);
    assert_eq!(menu_choice(1), MenuChoice::ShowWindow);
    assert_eq!(menu_choice(2), MenuChoice::Exit);
    assert_eq!(menu_choice(0), MenuChoice::Nothing);
}

#[test]
fn the_hotkey_starts_again_after_a_run_ends_by_itself() {
    assert_eq!(run_toggle(true, true, false), RunToggle::Stop);
    assert_eq!(run_toggle(false, false, true), RunToggle::Start);
    assert_eq!(run_toggle(false, true, true), RunToggle::Start);
    assert_eq!(run_toggle(false, true, false), RunToggle::Ignore);
}
