use beer_mouse_clicker::constants::{pack_combo, pack_image_match, pack_move, TaskActionType, TaskStep};
use beer_mouse_clicker::describe::{can_describe, step_msg_id, task_desc_egui, wait_key_prompt};
use beer_mouse_clicker::lang::Lang;

fn step(action: TaskActionType, param: u64, extra: u32) -> TaskStep {
    TaskStep { action, param, extra }
}

fn desc(s: TaskStep, lang: Lang, msg: &str, secs: &str) -> String {
    assert!(can_describe(&s, msg));
    task_desc_egui(&s, lang, msg, secs)
}

#[test]
fn clicks_and_delays() {
    assert_eq!(desc(step(TaskActionType::MouseClick, 0, 0), Lang::EN, "", ""), "Mouse Left click");
    assert_eq!(desc(step(TaskActionType::MouseClick, 1 | (500 << 8), 3), Lang::EN, "", ""), "Mouse long-press Right 500ms ±3px");
    assert_eq!(desc(step(TaskActionType::MouseClick, 2, 0), Lang::CN, "", ""), "鼠标中键点击");
    assert_eq!(desc(step(TaskActionType::Delay, 250, 0), Lang::EN, "", ""), "Delay 250 ms");
    assert_eq!(desc(step(TaskActionType::MouseDown, 1, 4), Lang::EN, "", ""), "Mouse Right down ±4px");
    assert_eq!(desc(step(TaskActionType::MouseUp, 0, 0), Lang::CN, "", ""), "鼠标左键松开");
    assert_eq!(desc(step(TaskActionType::RandomDelay, 100 | (900u64 << 32), 0), Lang::EN, "", ""), "Random 100~900ms");
    assert_eq!(desc(step(TaskActionType::WaitUntil, 9 * 60 + 5, 0), Lang::EN, "", ""), "Wait 9:05");
}

#[test]
fn keys() {
    assert_eq!(desc(step(TaskActionType::KeyPress, 0x41, 0), Lang::EN, "", ""), "Key A");
    assert_eq!(desc(step(TaskActionType::KeyPress, 0x41 | (400 << 16), 0), Lang::EN, "", ""), "Key long-press A 400ms");
    assert_eq!(desc(step(TaskActionType::KeyDown, 0x10, 0), Lang::EN, "", ""), "Key down Shift");
    assert_eq!(desc(step(TaskActionType::KeyUp, 0x0D, 0), Lang::CN, "", ""), "松开按键 回车");
    assert_eq!(desc(step(TaskActionType::WaitKey, 0x20, 3), Lang::EN, "", ""), "WaitKey Space ErrStop Popup");
    assert_eq!(desc(step(TaskActionType::ComboKey, pack_combo(&[0x5B, 0x44]), 2), Lang::EN, "", "").starts_with("Combo: "), true);
    assert_eq!(
        desc(step(TaskActionType::ComboKey, pack_combo(&[0x41, 0x42]), 2), Lang::EN, "", ""),
        "Combo: 显示桌面 (Win + D)"
    );
}

#[test]
fn moves() {
    assert_eq!(desc(step(TaskActionType::MouseMove, pack_move(-1, -1), 0), Lang::EN, "", ""), "Move Center");
    assert_eq!(desc(step(TaskActionType::MouseMove, pack_move(100, 0), 0), Lang::EN, "", ""), "Move →");
    assert_eq!(desc(step(TaskActionType::MouseMove, pack_move(3, -4), 0x0100_0000), Lang::EN, "", ""), "Move Offset(3, -4)");
    assert_eq!(desc(step(TaskActionType::MouseMove, pack_move(30, 40), 1500), Lang::EN, "", "1.5"), "Move Pos(30, 40) 1.5s");
    let w = step(TaskActionType::MouseMove, pack_move(-2, 7), 0);
    assert_eq!(step_msg_id(&w), Some(7));
    assert_eq!(desc(w, Lang::EN, "Notepad", ""), "Move Window: Notepad");
    assert_eq!(desc(w, Lang::EN, "abcdefghijklmnop", ""), "Move Window: abcdefghijkl...");
}

#[test]
fn messages() {
    let n = step(TaskActionType::Notify, 5, 0);
    assert_eq!(step_msg_id(&n), Some(5));
    assert_eq!(desc(n, Lang::EN, "hi", ""), "Notify: hi");
    assert_eq!(desc(n, Lang::EN, "0123456789abcdefghijXYZ", ""), "Notify: 0123456789abcdefghij...");
    assert!(!can_describe(&n, "0123456789abcdefghi中国"));
    assert_eq!(desc(step(TaskActionType::Comment, 1, 0), Lang::EN, "", ""), "Comment");
    assert_eq!(desc(step(TaskActionType::Comment, 1, 2), Lang::EN, "", ""), "Comment [2]");
    assert_eq!(desc(step(TaskActionType::Comment, 1, 2), Lang::EN, "note", ""), "Comment [2] note");
    assert_eq!(desc(step(TaskActionType::OpenProgram, 1, 0), Lang::EN, "", ""), "Open Program");
    assert_eq!(desc(step(TaskActionType::OpenProgram, 1, 0), Lang::EN, "C:\\a.exe", ""), "Open: C:\\a.exe");
    assert_eq!(desc(step(TaskActionType::WaitInput, 1, 7), Lang::EN, "ok", ""), "WaitInput: ok Regex Copy IgnoreFail");
    assert_eq!(desc(step(TaskActionType::CopyText, 1, 0), Lang::CN, "x", ""), "复制文本: x");
    assert_eq!(step_msg_id(&step(TaskActionType::Delay, 5, 0)), None);
}

#[test]
fn image_match() {
    let s = step(TaskActionType::ImageMatch, pack_image_match(1, 0), 90 | 0x200 | (3 << 10));
    assert_eq!(step_msg_id(&s), Some(3));
    assert_eq!(desc(s, Lang::EN, "", ""), "Match (conf≥90%) ignore fail");
    assert_eq!(desc(s, Lang::EN, "Calculator", ""), "Match (conf≥90%) [Calculat...] ignore fail");
    let z = step(TaskActionType::ImageMatch, pack_image_match(1, 0), 0);
    assert_eq!(desc(z, Lang::EN, "", ""), "Match (conf≥1%)");
}

#[test]
fn window_steps() {
    assert_eq!(desc(step(TaskActionType::LostFocus, 0, 0), Lang::EN, "", ""), "Lost focus");
    assert_eq!(desc(step(TaskActionType::ShowWindow, 0, 0), Lang::CN, "", ""), "显示程序窗口");
    assert_eq!(desc(step(TaskActionType::HideWindow, 0, 0), Lang::EN, "", ""), "Hide Window");
    assert_eq!(desc(step(TaskActionType::MouseWheel, 1, 0), Lang::EN, "", ""), "Wheel up");
    assert_eq!(desc(step(TaskActionType::MouseWheel, 0, 0), Lang::CN, "", ""), "滚轮下滚");
}

#[test]
fn wait_key_prompt_names_the_key() {
    assert_eq!(wait_key_prompt(0x41, Lang::EN), "Press A to continue...");
    assert_eq!(wait_key_prompt(0x20, Lang::CN), "等待按下 空格 继续...");
}
