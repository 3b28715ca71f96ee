use beer_mouse_clicker::chance::random_between;
use beer_mouse_clicker::constants::{pack_combo, pack_image_match, pack_move, TaskActionType, TaskStep};
use beer_mouse_clicker::pattern::{input_matches, Pattern};
use beer_mouse_clicker::runner::{
    next_total, plan_step, time_reached, trim, tz_offset_secs, wait_slice, wrong_key, Command, Event, MessageKind,
    Runner, StepKind,
};

fn step(action: TaskActionType, param: u64, extra: u32) -> TaskStep {
    TaskStep { action, param, extra }
}

const GO: Event = Event::Running { clicking: true, same_epoch: true };
const STOPPED: Event = Event::Running { clicking: false, same_epoch: false };
const DONE: Event = Event::Done;
const WAITED: Event = Event::Waited { completed: true };
const CUT: Event = Event::Waited { completed: false };

#[test]
fn empty_list_stops_at_once() {
    let mut r = Runner::new(vec![], true, 1000);
    assert_eq!(r.answer(DONE), Command::StopRunning);
    assert_eq!(r.answer(DONE), Command::Finished);
    assert_eq!(r.answer(GO), Command::Finished);
}

#[test]
fn one_pass_over_a_delay() {
    let mut r = Runner::new(vec![step(TaskActionType::Delay, 100, 0)], false, 1000);
    assert_eq!(r.answer(DONE), Command::CheckRunning);
    assert_eq!(r.answer(GO), Command::Wait { ms: 100 });
    assert_eq!(r.answer(WAITED), Command::CountRound);
    assert_eq!(r.answer(DONE), Command::StopRunning);
    assert_eq!(r.answer(DONE), Command::Finished);
}

#[test]
fn delays_are_clamped() {
    let mut r = Runner::new(vec![step(TaskActionType::Delay, 0, 0), step(TaskActionType::Delay, 70000, 0)], false, 0);
    assert_eq!(r.answer(DONE), Command::CheckRunning);
    assert_eq!(r.answer(GO), Command::Wait { ms: 1 });
    assert_eq!(r.answer(WAITED), Command::CheckRunning);
    assert_eq!(r.answer(GO), Command::Wait { ms: 60000 });
}

#[test]
fn looping_pauses_between_rounds_and_stops_when_asked() {
    let mut r = Runner::new(vec![step(TaskActionType::MouseWheel, 1, 0)], true, 500);
    assert_eq!(r.answer(DONE), Command::CheckRunning);
    assert_eq!(r.answer(GO), Command::Wheel { up: true });
    assert_eq!(r.answer(DONE), Command::Pause { ms: 10 });
    assert_eq!(r.answer(DONE), Command::CountRound);
    assert_eq!(r.answer(DONE), Command::CheckRunning);
    assert_eq!(r.answer(GO), Command::Wait { ms: 500 });
    assert_eq!(r.answer(WAITED), Command::CheckRunning);
    assert_eq!(r.answer(GO), Command::CheckRunning);
    assert_eq!(r.answer(GO), Command::Wheel { up: true });
    assert_eq!(r.answer(DONE), Command::Pause { ms: 10 });
    assert_eq!(r.answer(DONE), Command::CountRound);
    assert_eq!(r.answer(DONE), Command::CheckRunning);
    assert_eq!(r.answer(GO), Command::Wait { ms: 500 });
    assert_eq!(r.answer(CUT), Command::StopRunning);
    assert_eq!(r.answer(DONE), Command::Finished);
}

#[test]
fn a_stop_before_a_step_skips_it() {
    let mut r = Runner::new(vec![step(TaskActionType::Delay, 5, 0), step(TaskActionType::Delay, 6, 0)], true, 0);
    assert_eq!(r.answer(DONE), Command::CheckRunning);
    assert_eq!(r.answer(STOPPED), Command::CountRound);
    assert_eq!(r.answer(DONE), Command::CheckRunning);
    assert_eq!(r.answer(STOPPED), Command::StopRunning);
    assert_eq!(r.answer(DONE), Command::Finished);
}

#[test]
fn an_interrupted_hold_ends_the_round_without_release() {
    let mut r = Runner::new(vec![step(TaskActionType::KeyPress, 0x41 | (300 << 16), 0), step(TaskActionType::Delay, 5, 0)], false, 0);
    assert_eq!(r.answer(DONE), Command::CheckRunning);
    assert_eq!(r.answer(GO), Command::Key { vk: 0x41, down: true });
    assert_eq!(r.answer(DONE), Command::Wait { ms: 300 });
    assert_eq!(r.answer(CUT), Command::CountRound);
}

#[test]
fn a_jittered_click_moves_within_the_radius_and_back() {
    for _ in 0..20 {
        let mut r = Runner::new(vec![step(TaskActionType::MouseClick, 1, 5)], false, 0);
        assert_eq!(r.answer(DONE), Command::CheckRunning);
        match r.answer(GO) {
            Command::Nudge { dx, dy } => {
                assert!(-5 <= dx && dx <= 5);
                assert!(-5 <= dy && dy <= 5);
            },
            other => panic!("unexpected {:?}", other),
        }
        assert_eq!(r.answer(DONE), Command::MouseButton { flags: 0x0008 });
        assert_eq!(r.answer(DONE), Command::Wait { ms: 10 });
        assert_eq!(r.answer(WAITED), Command::MouseButton { flags: 0x0010 });
        assert_eq!(r.answer(DONE), Command::RestoreCursor);
        assert_eq!(r.answer(DONE), Command::CountRound);
    }
}

#[test]
fn a_combo_presses_in_order_and_releases_in_reverse() {
    let (kind, ops) = plan_step(&step(TaskActionType::ComboKey, pack_combo(&[0xA2, 0x43]), 2));
    assert_eq!(kind, StepKind::Ops);
    assert_eq!(
        ops,
        vec![
            Command::Key { vk: 0xA2, down: true },
            Command::Pause { ms: 20 },
            Command::Key { vk: 0x43, down: true },
            Command::Pause { ms: 20 },
            Command::Pause { ms: 50 },
            Command::Key { vk: 0x43, down: false },
            Command::Pause { ms: 10 },
            Command::Key { vk: 0xA2, down: false },
            Command::Pause { ms: 10 },
        ]
    );
}

#[test]
fn random_delays_stay_in_their_bounds() {
    for _ in 0..50 {
        let (_, ops) = plan_step(&step(TaskActionType::RandomDelay, 100 | (200u64 << 32), 0));
        match ops[0] {
            Command::Wait { ms } => assert!(100 <= ms && ms <= 200),
            other => panic!("unexpected {:?}", other),
        }
    }
    let (_, ops) = plan_step(&step(TaskActionType::RandomDelay, 300 | (200u64 << 32), 0));
    assert_eq!(ops, vec![Command::Wait { ms: 300 }]);
    let (_, ops) = plan_step(&step(TaskActionType::RandomDelay, 0, 0));
    assert_eq!(ops, vec![Command::Wait { ms: 1 }]);
}

#[test]
fn random_numbers_vary_within_bounds() {
    let mut seen_other = false;
    for _ in 0..64 {
        let v = random_between(0, 1_000_000);
        assert!((0..=1_000_000).contains(&v));
        if v != 0 && v != 1_000_000 {
            seen_other = true;
        }
    }
    assert!(seen_other);
    assert_eq!(random_between(7, 7), 7);
}

#[test]
fn moves_relative_and_to_the_centre() {
    let mut r = Runner::new(
        vec![step(TaskActionType::MouseMove, pack_move(5, -3), 0x0100_0000 | 200), step(TaskActionType::MouseMove, pack_move(-1, -1), 0)],
        false,
        0,
    );
    assert_eq!(r.answer(DONE), Command::CheckRunning);
    assert_eq!(r.answer(GO), Command::QueryCursor);
    assert_eq!(r.answer(Event::Cursor { x: 10, y: 20 }), Command::SmoothMove { x: 15, y: 17, duration_ms: 200 });
    assert_eq!(r.answer(DONE), Command::CheckRunning);
    assert_eq!(r.answer(GO), Command::QueryScreen);
    assert_eq!(r.answer(Event::Screen { w: 1921, h: 1080 }), Command::SmoothMove { x: 960, y: 540, duration_ms: 0 });
    assert_eq!(r.answer(DONE), Command::CountRound);
}

#[test]
fn moves_to_a_window_and_to_coordinates() {
    let (k, ops) = plan_step(&step(TaskActionType::MouseMove, pack_move(-2, 9), 0));
    assert_eq!(k, StepKind::Ops);
    assert_eq!(ops, vec![Command::MoveToWindow { title_id: 9 }]);
    let (_, ops) = plan_step(&step(TaskActionType::MouseMove, pack_move(30, 40), 700));
    assert_eq!(ops, vec![Command::SmoothMove { x: 30, y: 40, duration_ms: 700 }]);
}

#[test]
fn a_failed_image_match_shows_its_message_and_ends_the_round() {
    let mut r = Runner::new(
        vec![step(TaskActionType::ImageMatch, pack_image_match(4, 6), 0x100 | (2 << 10)), step(TaskActionType::Delay, 5, 0)],
        false,
        0,
    );
    assert_eq!(r.answer(DONE), Command::CheckRunning);
    assert_eq!(r.answer(GO), Command::MatchImage { image_id: 4, threshold: 85, window_id: 2, move_mouse: true });
    assert_eq!(r.answer(Event::Matched { found: false }), Command::ShowMessage { kind: MessageKind::ImageFailed, msg_id: 6 });
    assert_eq!(r.answer(DONE), Command::CountRound);
}

#[test]
fn an_ignored_image_failure_goes_on() {
    let mut r = Runner::new(vec![step(TaskActionType::ImageMatch, pack_image_match(4, 0), 70 | 0x200), step(TaskActionType::Delay, 5, 0)], false, 0);
    assert_eq!(r.answer(DONE), Command::CheckRunning);
    assert_eq!(r.answer(GO), Command::MatchImage { image_id: 4, threshold: 70, window_id: 0, move_mouse: false });
    assert_eq!(r.answer(Event::Matched { found: false }), Command::CheckRunning);
    assert_eq!(r.answer(GO), Command::Wait { ms: 5 });
}

#[test]
fn typed_text_is_trimmed_copied_and_matched() {
    let mut r = Runner::new(vec![step(TaskActionType::WaitInput, 3, 1), step(TaskActionType::Delay, 5, 0)], false, 0);
    assert_eq!(r.answer(DONE), Command::CheckRunning);
    assert_eq!(r.answer(GO), Command::AskInput { msg_id: 3 });
    assert_eq!(r.answer_input(Some("  abc \r\n".to_string()), "abc"), Command::CopyInput);
    assert_eq!(r.last_input(), "abc");
    assert_eq!(r.answer(DONE), Command::CheckRunning);
    assert_eq!(r.answer(GO), Command::Wait { ms: 5 });
}

#[test]
fn mismatched_text_stops_the_run() {
    let mut r = Runner::new(vec![step(TaskActionType::WaitInput, 3, 4), step(TaskActionType::Delay, 5, 0)], true, 0);
    assert_eq!(r.answer(DONE), Command::CheckRunning);
    assert_eq!(r.answer(GO), Command::AskInput { msg_id: 3 });
    assert_eq!(r.answer_input(Some("xyz".to_string()), "^a.c$"), Command::StopRunning);
    assert_eq!(r.answer(DONE), Command::CountRound);
    let mut r = Runner::new(vec![step(TaskActionType::WaitInput, 3, 4)], false, 0);
    r.answer(DONE);
    r.answer(GO);
    assert_eq!(r.answer_input(Some("abc".to_string()), "^a.c$"), Command::CountRound);
    let mut r = Runner::new(vec![step(TaskActionType::WaitInput, 3, 0)], false, 0);
    r.answer(DONE);
    r.answer(GO);
    assert_eq!(r.answer_input(None, "x"), Command::StopRunning);
    let mut r = Runner::new(vec![step(TaskActionType::WaitInput, 3, 2)], false, 0);
    r.answer(DONE);
    r.answer(GO);
    assert_eq!(r.answer_input(None, "x"), Command::CountRound);
}

#[test]
fn waiting_for_a_key_press_and_release() {
    let mut r = Runner::new(vec![step(TaskActionType::WaitKey, 0x41, 2)], false, 0);
    let none = vec![false; 256];
    let mut a_down = vec![false; 256];
    a_down[0x41] = true;
    assert_eq!(r.answer(DONE), Command::CheckRunning);
    assert_eq!(r.answer(GO), Command::PromptKey { vk: 0x41 });
    assert_eq!(r.answer(DONE), Command::CheckRunning);
    assert_eq!(r.answer(GO), Command::ReadKeys);
    assert_eq!(r.answer_keys(&none), Command::Wait { ms: 50 });
    assert_eq!(r.answer(WAITED), Command::CheckRunning);
    assert_eq!(r.answer(GO), Command::ReadKeys);
    assert_eq!(r.answer_keys(&a_down), Command::Wait { ms: 50 });
    assert_eq!(r.answer(WAITED), Command::CheckRunning);
    assert_eq!(r.answer(GO), Command::ReadKeys);
    assert_eq!(r.answer_keys(&none), Command::CheckRunning);
    assert_eq!(r.answer(GO), Command::CountRound);
}

#[test]
fn a_wrong_key_stops_the_run() {
    let mut r = Runner::new(vec![step(TaskActionType::WaitKey, 0x41, 3), step(TaskActionType::Delay, 5, 0)], false, 0);
    let mut b_down = vec![false; 256];
    b_down[0x42] = true;
    assert_eq!(r.answer(DONE), Command::CheckRunning);
    assert_eq!(r.answer(GO), Command::PromptKey { vk: 0x41 });
    assert_eq!(r.answer(DONE), Command::CheckRunning);
    assert_eq!(r.answer(GO), Command::ReadKeys);
    assert_eq!(r.answer_keys(&b_down), Command::WrongKeyWarning);
    assert_eq!(r.answer(DONE), Command::StopRunning);
    assert_eq!(r.answer(DONE), Command::CheckRunning);
    assert_eq!(r.answer(STOPPED), Command::CountRound);
}

#[test]
fn wrong_keys_leave_out_modifiers() {
    let mut down = vec![false; 256];
    down[0x10] = true;
    down[0xA3] = true;
    down[0x5B] = true;
    down[0x01] = true;
    down[0x41] = true;
    assert!(!wrong_key(&down, 0x41));
    down[0x0D] = true;
    assert!(wrong_key(&down, 0x41));
}

#[test]
fn waiting_until_a_time_of_day() {
    let mut r = Runner::new(vec![step(TaskActionType::WaitUntil, 8 * 60 + 30, 0)], false, 0);
    assert_eq!(r.answer(DONE), Command::CheckRunning);
    assert_eq!(r.answer(GO), Command::QueryTzOffset);
    assert_eq!(r.answer(Event::TzOffset { secs: 3600 }), Command::CheckRunning);
    assert_eq!(r.answer(GO), Command::QueryClock);
    // 07:00 UTC is 08:00 here: not yet
    assert_eq!(r.answer(Event::Clock { unix_secs: 7 * 3600 }), Command::Wait { ms: 1000 });
    assert_eq!(r.answer(WAITED), Command::CheckRunning);
    assert_eq!(r.answer(GO), Command::QueryClock);
    assert_eq!(r.answer(Event::Clock { unix_secs: 7 * 3600 + 30 * 60 }), Command::CountRound);
}

#[test]
fn time_of_day_helpers() {
    assert!(time_reached(9 * 3600, 0, 9, 0));
    assert!(!time_reached(9 * 3600 - 60, 0, 9, 0));
    assert!(time_reached(10 * 3600, 0, 9, 59));
    // before the epoch the offset wraps around, as the executor's arithmetic does
    assert!(!time_reached(0, -3600, 23, 0));
    assert!(time_reached(0, -3600, 6, 0));
    assert_eq!(tz_offset_secs(1, -480, 0, -60), 28800);
    assert_eq!(tz_offset_secs(2, 60, 0, -60), 0);
    assert_eq!(tz_offset_secs(0, 300, 0, -60), -18000);
}

#[test]
fn small_executor_helpers() {
    assert_eq!(wait_slice(350), 100);
    assert_eq!(wait_slice(40), 40);
    assert_eq!(wait_slice(0), 0);
    assert_eq!(next_total(5), 6);
    assert_eq!(next_total(u64::MAX), u64::MAX);
}

#[test]
fn trimming_like_std() {
    for s in ["  a b  ", "\u{3000}x\u{2009}", "", " \t\n", "中 ", "\u{85}y\u{A0}"] {
        assert_eq!(trim(s), s.trim());
    }
}

#[test]
fn text_matching_literal_and_regex() {
    assert!(input_matches("abc", "abc", false));
    assert!(!input_matches("abc", "abcd", false));
    assert!(input_matches("b.d", "xabcdx", true));
    assert!(!input_matches("^b.d$", "xabcdx", true));
    assert!(!input_matches("(", "(", true));
    assert!(Pattern::compile("(").is_none());
    let p = Pattern::compile("[0-9]+").unwrap();
    assert!(p.finds("ab12"));
    assert!(!p.finds("abc"));
}

#[test]
fn the_other_window_steps() {
    let (k, ops) = plan_step(&step(TaskActionType::Notify, 4, 0));
    assert_eq!(k, StepKind::Ops);
    assert_eq!(ops, vec![Command::ShowMessage { kind: MessageKind::Notify, msg_id: 4 }]);
    assert_eq!(plan_step(&step(TaskActionType::LostFocus, 0, 0)).1, vec![Command::MinimizeWindow]);
    assert_eq!(plan_step(&step(TaskActionType::CopyText, 2, 0)).1, vec![Command::CopyMessage { msg_id: 2 }]);
    assert_eq!(plan_step(&step(TaskActionType::OpenProgram, 8, 0)).1, vec![Command::OpenProgram { path_id: 8 }]);
    assert_eq!(plan_step(&step(TaskActionType::Comment, 8, 2)).1, Vec::<Command>::new());
    assert_eq!(plan_step(&step(TaskActionType::KeyDown, 0x1_0041, 0)).1, vec![Command::Key { vk: 0x41, down: true }]);
    assert_eq!(plan_step(&step(TaskActionType::MouseDown, 2, 0)).1, vec![Command::MouseButton { flags: 0x0020 }]);
    assert_eq!(plan_step(&step(TaskActionType::MouseUp, 7, 0)).1, vec![Command::MouseButton { flags: 0x0004 }]);
}
