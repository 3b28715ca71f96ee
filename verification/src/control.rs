//! The window's per-frame decisions: the hotkey, the input locks, the tip
//! line, starting on launch, and the tray icon's clicks.

use vstd::prelude::*;
use crate::constants::{TaskActionType, TaskStep};
use crate::keys::{is_mouse_vk, is_mouse_vk_spec};

verus! {

/// What a press of the hotkey does.
#[derive(Clone, Copy, PartialEq, Eq, Structural, Debug)]
pub enum HotkeyAction {
    /// Nothing.
    Nothing,
    /// Start recording (recording was armed).
    StartRecording,
    /// Stop recording.
    StopRecording,
    /// Start or stop running the tasks, showing the window first when it
    /// lives in the tray.
    Toggle { show_window: bool },
}

/// The outcome of a look at the hotkey: what to do, whether the key counts
/// as down for the next look, and whether recording stays armed.
#[derive(Clone, Copy, PartialEq, Eq, Structural, Debug)]
pub struct HotkeyPoll {
    pub action: HotkeyAction,
    pub last_down: bool,
    pub rec_armed: bool,
}

/// What a look at the hotkey decides. Nothing is looked at while a new
/// hotkey is being chosen, nor for a mouse button hotkey; a press (down
/// now, up before) starts armed recording, else stops recording, else
/// toggles running.
pub open spec fn hotkey_poll_spec(
    choosing: bool,
    hotkey: i32,
    key_down: bool,
    last_down: bool,
    rec_armed: bool,
    recording: bool,
    background: bool,
) -> HotkeyPoll {
    if choosing || is_mouse_vk_spec(hotkey) {
        HotkeyPoll { action: HotkeyAction::Nothing, last_down, rec_armed }
    } else if key_down && !last_down {
        if rec_armed {
            HotkeyPoll { action: HotkeyAction::StartRecording, last_down: key_down, rec_armed: false }
        } else if recording {
            HotkeyPoll { action: HotkeyAction::StopRecording, last_down: key_down, rec_armed }
        } else {
            HotkeyPoll { action: HotkeyAction::Toggle { show_window: background }, last_down: key_down, rec_armed }
        }
    } else {
        HotkeyPoll { action: HotkeyAction::Nothing, last_down: key_down, rec_armed }
    }
}

/// What a look at the hotkey decides; `key_down` is whether the hotkey is
/// down now (it is not consulted for a mouse button hotkey).
pub fn poll_hotkey(
    choosing: bool,
    hotkey: i32,
    key_down: bool,
    last_down: bool,
    rec_armed: bool,
    recording: bool,
    background: bool,
) -> (r: HotkeyPoll)
    ensures
        r == hotkey_poll_spec(choosing, hotkey, key_down, last_down, rec_armed, recording, background),
{
    if choosing || is_mouse_vk(hotkey) {
        HotkeyPoll { action: HotkeyAction::Nothing, last_down, rec_armed }
    } else if key_down && !last_down {
        if rec_armed {
            HotkeyPoll { action: HotkeyAction::StartRecording, last_down: key_down, rec_armed: false }
        } else if recording {
            HotkeyPoll { action: HotkeyAction::StopRecording, last_down: key_down, rec_armed }
        } else {
            HotkeyPoll { action: HotkeyAction::Toggle { show_window: background }, last_down: key_down, rec_armed }
        }
    } else {
        HotkeyPoll { action: HotkeyAction::Nothing, last_down: key_down, rec_armed }
    }
}

/// Holding the hotkey down does not toggle again: only the first look that
/// sees it down acts.
pub proof fn lemma_hotkey_held_acts_once(
    choosing: bool,
    hotkey: i32,
    rec_armed: bool,
    recording: bool,
    background: bool,
    held: bool,
)
    ensures
        hotkey_poll_spec(choosing, hotkey, held, true, rec_armed, recording, background).action == HotkeyAction::Nothing,
        !choosing && !is_mouse_vk_spec(hotkey) ==> hotkey_poll_spec(choosing, hotkey, true, false, rec_armed, recording, background).last_down,
{
}

/// A change to the keyboard hook or the cursor clip.
#[derive(Clone, Copy, PartialEq, Eq, Structural, Debug)]
pub enum LockChange {
    /// Install the keyboard hook, or clip the cursor to where it is.
    Apply,
    /// Remove the keyboard hook, or release the cursor.
    Release,
    /// Leave it as it is.
    Keep,
}

/// The keyboard lock holds while running with "lock keyboard" on.
pub open spec fn kb_lock_spec(lock_kb: bool, clicking: bool, hooked: bool) -> LockChange {
    if lock_kb && clicking {
        if hooked {
            LockChange::Keep
        } else {
            LockChange::Apply
        }
    } else if hooked {
        LockChange::Release
    } else {
        LockChange::Keep
    }
}

/// The mouse lock holds while running with "lock mouse" on and nothing
/// being recorded; the cursor is clipped again at every frame.
pub open spec fn mouse_lock_spec(lock_mouse: bool, clicking: bool, recording: bool, clipped: bool) -> LockChange {
    if lock_mouse && clicking && !recording {
        LockChange::Apply
    } else if clipped {
        LockChange::Release
    } else {
        LockChange::Keep
    }
}

/// What the input locks need this frame: the keyboard hook's change and the
/// cursor clip's change.
pub fn lock_changes(lock_kb: bool, lock_mouse: bool, clicking: bool, recording: bool, hooked: bool, clipped: bool) -> (r: (
    LockChange,
    LockChange,
))
    ensures
        r.0 == kb_lock_spec(lock_kb, clicking, hooked),
        r.1 == mouse_lock_spec(lock_mouse, clicking, recording, clipped),
{
    let kb = if lock_kb && clicking {
        if hooked {
            LockChange::Keep
        } else {
            LockChange::Apply
        }
    } else if hooked {
        LockChange::Release
    } else {
        LockChange::Keep
    };
    let mouse = if lock_mouse && clicking && !recording {
        LockChange::Apply
    } else if clipped {
        LockChange::Release
    } else {
        LockChange::Keep
    };
    (kb, mouse)
}

/// When running stops, the locks come off: the hook is removed if there is
/// one and the cursor released if it was clipped.
pub proof fn lemma_locks_released_when_idle(lock_kb: bool, lock_mouse: bool, recording: bool, hooked: bool, clipped: bool)
    ensures
        kb_lock_spec(lock_kb, false, hooked) == (if hooked { LockChange::Release } else { LockChange::Keep }),
        mouse_lock_spec(lock_mouse, false, recording, clipped) == (if clipped { LockChange::Release } else { LockChange::Keep }),
{
}

/// One frame of the tip line's countdown: the ticks left, and whether the
/// tip is cleared now.
pub fn tip_tick(ticks: u32) -> (r: (u32, bool))
    ensures
        ticks > 0 ==> r == ((ticks - 1) as u32, ticks == 1),
        ticks == 0 ==> r == (0u32, false),
{
    if ticks > 0 {
        let left = ticks - 1;
        (left, left == 0)
    } else {
        (ticks, false)
    }
}

/// The interval between rounds set from the interval field: at least 10 ms.
pub fn interval_from_input(ms: u64) -> (r: u64)
    ensures
        r == (if ms < 10 { 10 } else { ms }),
{
    if ms < 10 {
        10
    } else {
        ms
    }
}

/// The kinds of step that make starting on launch worth it.
pub open spec fn starts_work(a: TaskActionType) -> bool {
    a == TaskActionType::MouseClick || a == TaskActionType::MouseMove || a == TaskActionType::MouseWheel
        || a == TaskActionType::KeyPress || a == TaskActionType::ComboKey || a == TaskActionType::ImageMatch
        || a == TaskActionType::WaitUntil || a == TaskActionType::WaitKey || a == TaskActionType::WaitInput
}

/// Whether running starts as the program opens: "exec on boot" when it was
/// launched at boot, "exec on launch" otherwise, and only with a step that
/// does something.
pub open spec fn auto_start_spec(boot_launch: bool, auto_exec_boot: bool, auto_exec: bool, tasks: Seq<TaskStep>) -> bool {
    (if boot_launch { auto_exec_boot } else { auto_exec }) && exists|i: int| 0 <= i < tasks.len() && starts_work(#[trigger] tasks[i].action)
}

/// Starting on launch: it takes the switch that applies to how the
/// program was launched ("exec on boot" at boot, "exec on launch"
/// otherwise), and then a list with a click, move, wheel turn, key press,
/// combo, image match or wait (for a time, a key or typed text) starts,
/// while a list of only delays, button or key holds and releases, messages,
/// focus and window changes, comments and program starts does not.
pub proof fn lemma_auto_start_cases(boot_launch: bool, auto_exec_boot: bool, auto_exec: bool, tasks: Seq<TaskStep>)
    ensures
        boot_launch ==> (auto_start_spec(boot_launch, auto_exec_boot, auto_exec, tasks) ==> auto_exec_boot),
        !boot_launch ==> (auto_start_spec(boot_launch, auto_exec_boot, auto_exec, tasks) ==> auto_exec),
        forall|i: int|
            0 <= i < tasks.len() && (if boot_launch { auto_exec_boot } else { auto_exec }) && ({
                let a = (#[trigger] tasks[i]).action;
                ||| a == TaskActionType::MouseClick
                ||| a == TaskActionType::MouseMove
                ||| a == TaskActionType::MouseWheel
                ||| a == TaskActionType::KeyPress
                ||| a == TaskActionType::ComboKey
                ||| a == TaskActionType::ImageMatch
                ||| a == TaskActionType::WaitUntil
                ||| a == TaskActionType::WaitKey
                ||| a == TaskActionType::WaitInput
            }) ==> auto_start_spec(boot_launch, auto_exec_boot, auto_exec, tasks),
        (forall|i: int|
            0 <= i < tasks.len() ==> {
                let a = (#[trigger] tasks[i]).action;
                ||| a == TaskActionType::Delay
                ||| a == TaskActionType::MouseDown
                ||| a == TaskActionType::MouseUp
                ||| a == TaskActionType::KeyDown
                ||| a == TaskActionType::KeyUp
                ||| a == TaskActionType::Notify
                ||| a == TaskActionType::LostFocus
                ||| a == TaskActionType::RandomDelay
                ||| a == TaskActionType::CopyText
                ||| a == TaskActionType::Comment
                ||| a == TaskActionType::ShowWindow
                ||| a == TaskActionType::HideWindow
                ||| a == TaskActionType::OpenProgram
            }) ==> !auto_start_spec(boot_launch, auto_exec_boot, auto_exec, tasks),
{
}

fn starts_work_exec(a: TaskActionType) -> (r: bool)
    ensures
        r == starts_work(a),
{
    match a {
        TaskActionType::MouseClick | TaskActionType::MouseMove | TaskActionType::MouseWheel | TaskActionType::KeyPress
        | TaskActionType::ComboKey | TaskActionType::ImageMatch | TaskActionType::WaitUntil | TaskActionType::WaitKey
        | TaskActionType::WaitInput => true,
        _ => false,
    }
}

/// Whether running starts as the program opens.
pub fn should_auto_start(boot_launch: bool, auto_exec_boot: bool, auto_exec: bool, tasks: &[TaskStep]) -> (r: bool)
    ensures
        r == auto_start_spec(boot_launch, auto_exec_boot, auto_exec, tasks@),
{
    let wanted = if boot_launch {
        auto_exec_boot
    } else {
        auto_exec
    };
    if !wanted {
        return false;
    }
    let mut i: usize = 0;
    while i < tasks.len()
        invariant
            0 <= i <= tasks@.len(),
            wanted,
            wanted == (if boot_launch { auto_exec_boot } else { auto_exec }),
            forall|k: int| 0 <= k < i ==> !starts_work(#[trigger] tasks@[k].action),
        decreases tasks@.len() - i,
    {
        if starts_work_exec(tasks[i].action) {
            assert(starts_work(tasks@[i as int].action));
            return true;
        }
        i = i + 1;
    }
    false
}

/// What the start/stop hotkey does to the run.
#[derive(Clone, Copy, PartialEq, Eq, Structural, Debug)]
pub enum RunToggle {
    /// Stop the run.
    Stop,
    /// Start a new run.
    Start,
    /// Nothing: the previous run's thread is still winding down.
    Ignore,
}

/// What the hotkey does: a running task list stops; otherwise a new run
/// starts, unless the thread of the previous run is still held and has not
/// finished yet. A run that ended by itself does not block the next start.
pub fn run_toggle(clicking: bool, thread_held: bool, thread_finished: bool) -> (r: RunToggle)
    ensures
        r == (if clicking {
            RunToggle::Stop
        } else if thread_held && !thread_finished {
            RunToggle::Ignore
        } else {
            RunToggle::Start
        }),
{
    if clicking {
        RunToggle::Stop
    } else if thread_held && !thread_finished {
        RunToggle::Ignore
    } else {
        RunToggle::Start
    }
}

/// What a click on the tray icon does.
#[derive(Clone, Copy, PartialEq, Eq, Structural, Debug)]
pub enum TrayAction {
    /// Nothing.
    Nothing,
    /// Show the main window.
    ShowWindow,
    /// Open the menu (show the window, or exit).
    OpenMenu,
}

/// What the tray icon's notification does: the mouse message is the low 16
/// bits of `lparam`; a left click or double click shows the window, a right
/// click opens the menu.
pub fn tray_icon_action(lparam: isize) -> (r: TrayAction)
    ensures
        r == (if lparam % 0x10000 == 0x0202 || lparam % 0x10000 == 0x0203 {
            TrayAction::ShowWindow
        } else if lparam % 0x10000 == 0x0205 {
            TrayAction::OpenMenu
        } else {
            TrayAction::Nothing
        }),
{
    let ev = (lparam & 0xFFFF) as u32;
    assert(ev as int == lparam % 0x10000) by (bit_vector)
        requires
            ev == (lparam & 0xFFFF) as u32,
    ;
    if ev == 0x0202 || ev == 0x0203 {
        TrayAction::ShowWindow
    } else if ev == 0x0205 {
        TrayAction::OpenMenu
    } else {
        TrayAction::Nothing
    }
}

/// The tray menu's choice: 1 shows the window, 2 exits.
#[derive(Clone, Copy, PartialEq, Eq, Structural, Debug)]
pub enum MenuChoice {
    Nothing,
    ShowWindow,
    Exit,
}

/// The tray menu's choice from the command it returned.
pub fn menu_choice(cmd: i32) -> (r: MenuChoice)
    ensures
        r == (if cmd == 1 { MenuChoice::ShowWindow } else if cmd == 2 { MenuChoice::Exit } else { MenuChoice::Nothing }),
{
    if cmd == 1 {
        MenuChoice::ShowWindow
    } else if cmd == 2 {
        MenuChoice::Exit
    } else {
        MenuChoice::Nothing
    }
}

} // verus!
