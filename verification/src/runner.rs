//! The task executor's decisions.
//!
//! A [`Runner`] walks the task list and says, one [`Command`] at a time,
//! what the executor thread is to do; the thread carries the command out
//! (an input event, a sleep, a query of the cursor or the clock, a message
//! box...) and answers with what came of it. Stopping is observed through
//! the answers to `CheckRunning` and to interruptible waits.

use vstd::prelude::*;
use crate::chance::random_between;
use crate::text::{char_len, chars_of, push_char};
use crate::pattern::{input_matches, input_matches_spec};
use crate::constants::{
    lemma_extra_fields, lemma_i32_bits, lemma_param_fields,
    TaskActionType, TaskStep, combo_keys_of, unpack_combo, unpack_image_match, unpack_move,
    waitinput_copy, waitinput_ignore_fail, waitinput_regex, waitkey_show_popup,
    waitkey_terminate_on_wrong,
};

verus! {

/// Which message a message box shows.
#[derive(Clone, Copy, PartialEq, Eq, Structural, Debug)]
pub enum MessageKind {
    /// A notification step.
    Notify,
    /// The failure message of an image match.
    ImageFailed,
}

/// What the executor thread is to do next.
#[derive(Clone, Copy, PartialEq, Eq, Structural, Debug)]
pub enum Command {
    /// Send a mouse button event with these `MOUSEEVENTF_*` flags.
    MouseButton { flags: u32 },
    /// Send a key event.
    Key { vk: i32, down: bool },
    /// Turn the wheel one notch.
    Wheel { up: bool },
    /// Sleep, not interruptible.
    Pause { ms: u32 },
    /// Sleep in slices, stopping early when running stops; answer `Waited`.
    Wait { ms: u32 },
    /// Remember where the cursor is and move it by an offset.
    Nudge { dx: i32, dy: i32 },
    /// Put the cursor back where `Nudge` found it.
    RestoreCursor,
    /// Read the cursor position; answer `Cursor`.
    QueryCursor,
    /// Read the screen size; answer `Screen`.
    QueryScreen,
    /// Glide the cursor to a position over a duration (0: jump).
    SmoothMove { x: i32, y: i32, duration_ms: u32 },
    /// Move the cursor to the centre of the window titled by message `title_id`
    /// (nothing when that message is empty).
    MoveToWindow { title_id: u64 },
    /// Look for image `image_id` on the screen, or in the window titled by
    /// message `window_id` when it is not 0, at a confidence of at least
    /// `threshold` percent, and move the cursor to it when `move_mouse`;
    /// answer `Matched`.
    MatchImage { image_id: u32, threshold: u8, window_id: u32, move_mouse: bool },
    /// Show message `msg_id` in a message box (nothing when it is empty).
    ShowMessage { kind: MessageKind, msg_id: u64 },
    /// Show, without waiting, the prompt to press key `vk`.
    PromptKey { vk: i32 },
    /// Show the wrong-key warning and wait for it to be closed.
    WrongKeyWarning,
    /// Minimise the main window.
    MinimizeWindow,
    /// Show the main window.
    ShowWindow,
    /// Hide the main window.
    HideWindow,
    /// Copy message `msg_id` to the clipboard (nothing when it is empty).
    CopyMessage { msg_id: u64 },
    /// Copy the text just typed (see [`Runner::last_input`]) to the clipboard.
    CopyInput,
    /// Start the program whose path is message `path_id` (nothing when empty).
    OpenProgram { path_id: u64 },
    /// Read the local time zone's offset from UTC; answer `TzOffset`.
    QueryTzOffset,
    /// Read the clock; answer `Clock`.
    QueryClock,
    /// Ask the user to type a text, to be held against message `msg_id`;
    /// answer with [`Runner::answer_input`].
    AskInput { msg_id: u64 },
    /// Read which keys are down; answer with [`Runner::answer_keys`].
    ReadKeys,
    /// Read whether running goes on; answer `Running`.
    CheckRunning,
    /// Mark running as stopped.
    StopRunning,
    /// Add one to the round counter (it stops at its largest value).
    CountRound,
    /// The run is over.
    Finished,
}

/// What came of a command.
#[derive(Clone, Copy, PartialEq, Eq, Structural, Debug)]
pub enum Event {
    /// The command was carried out (no other answer).
    Done,
    /// A `Wait` ended: `completed` is false when running stopped during it.
    Waited { completed: bool },
    /// Whether running goes on, and whether it is still the same run.
    Running { clicking: bool, same_epoch: bool },
    /// The cursor position.
    Cursor { x: i32, y: i32 },
    /// The screen size.
    Screen { w: i32, h: i32 },
    /// Whether the image was found.
    Matched { found: bool },
    /// The local time zone's offset from UTC, in seconds.
    TzOffset { secs: i64 },
    /// Seconds since the Unix epoch.
    Clock { unix_secs: u64 },
}

// ---------------------------------------------------------------------
// Step plans
// ---------------------------------------------------------------------

/// The `MOUSEEVENTF_*` (down, up) flags of a mouse button code:
/// 1 right, 2 middle, anything else left.
pub open spec fn button_flags(btn: i32) -> (u32, u32) {
    if btn == 1 {
        (0x0008, 0x0010)
    } else if btn == 2 {
        (0x0020, 0x0040)
    } else {
        (0x0002, 0x0004)
    }
}

fn button_flags_exec(btn: i32) -> (r: (u32, u32))
    ensures
        r == button_flags(btn),
{
    if btn == 1 {
        (0x0008, 0x0010)
    } else if btn == 2 {
        (0x0020, 0x0040)
    } else {
        (0x0002, 0x0004)
    }
}

/// A hold time, or 10 ms when it is 0.
pub open spec fn hold_or_default(h: u32) -> u32 {
    if h > 0 {
        h
    } else {
        10
    }
}

/// A delay step's wait: its parameter's low 32 bits, clamped to 1..=60000.
pub open spec fn delay_ms(param: u64) -> u32 {
    let v = (param % 0x1_0000_0000) as u32;
    if v < 1 {
        1
    } else if v > 60000 {
        60000
    } else {
        v
    }
}

/// How a step runs: a fixed list of commands, or a kind that waits on
/// answers.
#[derive(Clone, Copy, PartialEq, Eq, Structural, Debug)]
pub enum StepKind {
    /// The commands of the plan, in order; an interrupted `Wait` ends the round.
    Ops,
    /// A move by an offset from where the cursor is.
    RelMove { dx: i32, dy: i32, duration: u32 },
    /// A move to the centre of the screen.
    CenterMove { duration: u32 },
    /// An image match; when it fails, message `fail_id` is shown (when not
    /// 0) and the round ends unless `ignore`.
    Image { image_id: u32, threshold: u8, window_id: u32, move_mouse: bool, fail_id: u32, ignore: bool },
    /// A wait until a time of day.
    Until { hour: u64, minute: u64 },
    /// A wait for a key to be pressed and released.
    WaitKey { vk: i32, terminate: bool, popup: bool },
    /// A wait for typed text matching message `msg_id`.
    WaitInput { msg_id: u64, copy: bool, ignore: bool, regex: bool },
}

/// The random choices a step may take: the two jitter offsets and the
/// random delay.
pub struct Picks {
    pub ox: int,
    pub oy: int,
    pub delay: int,
}

/// Whether random choices are allowed for a step: the offsets within the
/// jitter radius (when there is jitter) and the random delay within its
/// bounds (or the lower bound when the bounds are not increasing).
pub open spec fn picks_ok(step: TaskStep, p: Picks) -> bool {
    let j = step.extra as i32;
    let lo = step.param % 0x1_0000_0000;
    let hi = step.param / 0x1_0000_0000;
    &&& (j > 0 ==> -j <= p.ox <= j && -j <= p.oy <= j)
    &&& (hi > lo ==> lo <= p.delay <= hi)
    &&& (hi <= lo ==> p.delay == lo)
}

/// The commands of a press (or release, or both) of a mouse button with
/// optional jitter around it.
pub open spec fn jittered(step: TaskStep, p: Picks, core: Seq<Command>) -> Seq<Command> {
    if (step.extra as i32) > 0 {
        seq![Command::Nudge { dx: p.ox as i32, dy: p.oy as i32 }] + core + seq![Command::RestoreCursor]
    } else {
        core
    }
}

/// The commands of a combo: each key down with 20 ms between, 50 ms, then
/// each key up in reverse order with 10 ms after each.
pub open spec fn combo_ops(keys: Seq<u8>) -> Seq<Command> {
    Seq::new(2 * keys.len(), |i: int| if i % 2 == 0 {
        Command::Key { vk: keys[i / 2] as i32, down: true }
    } else {
        Command::Pause { ms: 20 }
    }) + seq![Command::Pause { ms: 50 }] + Seq::new(2 * keys.len(), |i: int| if i % 2 == 0 {
        Command::Key { vk: keys[keys.len() - 1 - i / 2] as i32, down: false }
    } else {
        Command::Pause { ms: 10 }
    })
}

/// How a step runs, given its random choices.
pub open spec fn plan_spec(step: TaskStep, p: Picks) -> (StepKind, Seq<Command>) {
    let btn = (step.param % 256) as i32;
    let x = (step.param % 0x1_0000_0000) as u32 as i32;
    let y = (step.param / 0x1_0000_0000) as u32 as i32;
    let duration = step.extra % 0x100_0000;
    match step.action {
        TaskActionType::MouseClick => {
            let (down, up) = button_flags(btn);
            let hold = hold_or_default(((step.param / 256) % 0x1_0000_0000) as u32);
            (StepKind::Ops, jittered(step, p, seq![
                Command::MouseButton { flags: down },
                Command::Wait { ms: hold },
                Command::MouseButton { flags: up },
            ]))
        },
        TaskActionType::KeyPress => {
            let vk = (step.param % 0x10000) as i32;
            let hold = hold_or_default(((step.param / 0x10000) % 0x1_0000_0000) as u32);
            (StepKind::Ops, seq![Command::Key { vk, down: true }, Command::Wait { ms: hold }, Command::Key { vk, down: false }])
        },
        TaskActionType::KeyDown => (StepKind::Ops, seq![Command::Key { vk: (step.param % 0x10000) as i32, down: true }]),
        TaskActionType::KeyUp => (StepKind::Ops, seq![Command::Key { vk: (step.param % 0x10000) as i32, down: false }]),
        TaskActionType::Delay => (StepKind::Ops, seq![Command::Wait { ms: delay_ms(step.param) }]),
        TaskActionType::MouseWheel => (StepKind::Ops, seq![Command::Wheel { up: step.param != 0 }, Command::Pause { ms: 10 }]),
        TaskActionType::MouseMove => if x == -2 {
            (StepKind::Ops, seq![Command::MoveToWindow { title_id: y as i64 as u64 }])
        } else if x == -1 && y == -1 {
            (StepKind::CenterMove { duration }, Seq::empty())
        } else if step.extra / 0x100_0000 == 1 {
            (StepKind::RelMove { dx: x, dy: y, duration }, Seq::empty())
        } else {
            (StepKind::Ops, seq![Command::SmoothMove { x, y, duration_ms: duration }])
        },
        TaskActionType::MouseDown => (StepKind::Ops, jittered(step, p, seq![Command::MouseButton { flags: button_flags(btn).0 }])),
        TaskActionType::MouseUp => (StepKind::Ops, jittered(step, p, seq![Command::MouseButton { flags: button_flags(btn).1 }])),
        TaskActionType::ImageMatch => {
            let conf = (step.extra % 256) as u8;
            (
                StepKind::Image {
                    image_id: (step.param % 0x1_0000_0000) as u32,
                    threshold: if conf == 0 { 85 } else { conf },
                    window_id: step.extra / 1024,
                    move_mouse: (step.extra / 256) % 2 == 1,
                    fail_id: (step.param / 0x1_0000_0000) as u32,
                    ignore: (step.extra / 512) % 2 == 1,
                },
                Seq::empty(),
            )
        },
        TaskActionType::Notify => (StepKind::Ops, seq![Command::ShowMessage { kind: MessageKind::Notify, msg_id: step.param }]),
        TaskActionType::LostFocus => (StepKind::Ops, seq![Command::MinimizeWindow]),
        TaskActionType::RandomDelay => (StepKind::Ops, seq![Command::Wait { ms: if p.delay < 1 { 1 } else { p.delay as u32 } }]),
        TaskActionType::ComboKey => (StepKind::Ops, combo_ops(combo_keys_of(step.param, step.extra))),
        TaskActionType::WaitUntil => (StepKind::Until { hour: step.param / 60, minute: step.param % 60 }, Seq::empty()),
        TaskActionType::CopyText => (StepKind::Ops, seq![Command::CopyMessage { msg_id: step.param }]),
        TaskActionType::Comment => (StepKind::Ops, Seq::empty()),
        TaskActionType::WaitKey => (
            StepKind::WaitKey { vk: step.param as i32, terminate: step.extra % 2 == 1, popup: (step.extra / 2) % 2 == 1 },
            Seq::empty(),
        ),
        TaskActionType::WaitInput => (
            StepKind::WaitInput {
                msg_id: step.param,
                copy: step.extra % 2 == 1,
                ignore: (step.extra / 2) % 2 == 1,
                regex: (step.extra / 4) % 2 == 1,
            },
            Seq::empty(),
        ),
        TaskActionType::ShowWindow => (StepKind::Ops, seq![Command::ShowWindow]),
        TaskActionType::HideWindow => (StepKind::Ops, seq![Command::HideWindow]),
        TaskActionType::OpenProgram => (StepKind::Ops, seq![Command::OpenProgram { path_id: step.param }]),
    }
}

fn jitter_offsets(step: &TaskStep) -> (r: (i32, i32))
    ensures
        (step.extra as i32) > 0 ==> -(step.extra as i32) <= r.0 <= (step.extra as i32) && -(step.extra as i32) <= r.1 <= (step.extra as i32),
        (step.extra as i32) <= 0 ==> r == (0i32, 0i32),
{
    let j = step.extra as i32;
    if j > 0 {
        let ox = random_between(-(j as i64), j as i64) as i32;
        let oy = random_between(-(j as i64), j as i64) as i32;
        (ox, oy)
    } else {
        (0, 0)
    }
}

fn with_jitter(step: &TaskStep, core: Vec<Command>) -> (r: (Vec<Command>, Ghost<(int, int)>))
    ensures
        ({
            let p = Picks { ox: r.1@.0, oy: r.1@.1, delay: 0 };
            &&& ((step.extra as i32) > 0 ==> -(step.extra as i32) <= p.ox <= (step.extra as i32)
                && -(step.extra as i32) <= p.oy <= (step.extra as i32))
            &&& r.0@ == jittered(*step, p, core@)
        }),
{
    let (ox, oy) = jitter_offsets(step);
    if (step.extra as i32) > 0 {
        let mut v: Vec<Command> = Vec::new();
        v.push(Command::Nudge { dx: ox, dy: oy });
        let mut i: usize = 0;
        while i < core.len()
            invariant
                0 <= i <= core@.len(),
                v@ == seq![Command::Nudge { dx: ox, dy: oy }] + core@.take(i as int),
            decreases core@.len() - i,
        {
            v.push(core[i]);
            i = i + 1;
            assert(v@ =~= seq![Command::Nudge { dx: ox, dy: oy }] + core@.take(i as int));
        }
        v.push(Command::RestoreCursor);
        assert(core@.take(core@.len() as int) =~= core@);
        assert(v@ =~= jittered(*step, Picks { ox: ox as int, oy: oy as int, delay: 0 }, core@));
        (v, Ghost((ox as int, oy as int)))
    } else {
        (core, Ghost((ox as int, oy as int)))
    }
}

/// How a step runs: its kind and, for a fixed list, the commands. Jitter
/// offsets and random delays are drawn here.
pub fn plan_step(step: &TaskStep) -> (r: (StepKind, Vec<Command>))
    ensures
        exists|p: Picks| picks_ok(*step, p) && (r.0, r.1@) == plan_spec(*step, p),
{
    let lo = step.param as u32;
    let hi = (step.param >> 32u64) as u32;
    let sp = step.param;
    let se = step.extra;
    proof {
        lemma_param_fields(sp);
    }
    let ghost mut picks = Picks { ox: 0, oy: 0, delay: lo as int };
    let kind_ops: (StepKind, Vec<Command>) = match step.action {
        TaskActionType::MouseClick => {
            let b = (step.param & 0xFF) as i32;
            let h = (step.param >> 8u64) as u32;
            proof {
                lemma_param_fields(sp);
            }
            let (down, up) = button_flags_exec(b);
            let hold = if h > 0 {
                h
            } else {
                10
            };
            let core = vec![Command::MouseButton { flags: down }, Command::Wait { ms: hold }, Command::MouseButton { flags: up }];
            let (v, g) = with_jitter(step, core);
            proof {
                picks = Picks { ox: g@.0, oy: g@.1, delay: lo as int };
            }
            (StepKind::Ops, v)
        },
        TaskActionType::KeyPress => {
            let vk = (step.param & 0xFFFF) as i32;
            let h = (step.param >> 16u64) as u32;
            proof {
                lemma_param_fields(sp);
            }
            let hold = if h > 0 {
                h
            } else {
                10
            };
            (StepKind::Ops, vec![Command::Key { vk, down: true }, Command::Wait { ms: hold }, Command::Key { vk, down: false }])
        },
        TaskActionType::KeyDown => {
            proof {
                lemma_param_fields(sp);
            }
            (StepKind::Ops, vec![Command::Key { vk: (step.param & 0xFFFF) as i32, down: true }])
        },
        TaskActionType::KeyUp => {
            proof {
                lemma_param_fields(sp);
            }
            (StepKind::Ops, vec![Command::Key { vk: (step.param & 0xFFFF) as i32, down: false }])
        },
        TaskActionType::Delay => {
            let v = step.param as u32;
            let ms = if v < 1 {
                1
            } else if v > 60000 {
                60000
            } else {
                v
            };
            (StepKind::Ops, vec![Command::Wait { ms }])
        },
        TaskActionType::MouseWheel => (StepKind::Ops, vec![Command::Wheel { up: step.param != 0 }, Command::Pause { ms: 10 }]),
        TaskActionType::MouseMove => {
            let (x, y) = unpack_move(step.param);
            proof {
                lemma_i32_bits(x, 0);
                lemma_i32_bits(y, 0);
            }
            let duration = step.extra & 0xFF_FFFF;
            let rel = step.extra >> 24u32;
            proof {
                lemma_extra_fields(se);
            }
            if x == -2 {
                (StepKind::Ops, vec![Command::MoveToWindow { title_id: y as i64 as u64 }])
            } else if x == -1 && y == -1 {
                (StepKind::CenterMove { duration }, Vec::new())
            } else if rel == 1 {
                (StepKind::RelMove { dx: x, dy: y, duration }, Vec::new())
            } else {
                (StepKind::Ops, vec![Command::SmoothMove { x, y, duration_ms: duration }])
            }
        },
        TaskActionType::MouseDown | TaskActionType::MouseUp => {
            let b = (step.param & 0xFF) as i32;
            proof {
                lemma_param_fields(sp);
            }
            let (down, up) = button_flags_exec(b);
            let flags = if step.action == TaskActionType::MouseDown {
                down
            } else {
                up
            };
            let (v, g) = with_jitter(step, vec![Command::MouseButton { flags }]);
            proof {
                picks = Picks { ox: g@.0, oy: g@.1, delay: lo as int };
            }
            (StepKind::Ops, v)
        },
        TaskActionType::ImageMatch => {
            let (image_id, fail_id) = unpack_image_match(step.param);
            let conf = (step.extra & 0xFF) as u8;
            let mm = step.extra & 0x100;
            let ig = step.extra & 0x200;
            let win = step.extra >> 10u32;
            proof {
                lemma_extra_fields(se);
            }
            let threshold = if conf == 0 {
                85
            } else {
                conf
            };
            (StepKind::Image { image_id, threshold, window_id: win, move_mouse: mm != 0, fail_id, ignore: ig != 0 }, Vec::new())
        },
        TaskActionType::Notify => (StepKind::Ops, vec![Command::ShowMessage { kind: MessageKind::Notify, msg_id: step.param }]),
        TaskActionType::LostFocus => (StepKind::Ops, vec![Command::MinimizeWindow]),
        TaskActionType::RandomDelay => {
            let ms = if hi > lo {
                random_between(lo as i64, hi as i64) as u32
            } else {
                lo
            };
            proof {
                picks = Picks { ox: 0, oy: 0, delay: ms as int };
            }
            let ms = if ms < 1 {
                1
            } else {
                ms
            };
            (StepKind::Ops, vec![Command::Wait { ms }])
        },
        TaskActionType::ComboKey => {
            let keys = unpack_combo(step.param, step.extra);
            assert(keys@ =~= combo_keys_of(step.param, step.extra));
            (StepKind::Ops, combo_commands(&keys))
        },
        TaskActionType::WaitUntil => (StepKind::Until { hour: step.param / 60, minute: step.param % 60 }, Vec::new()),
        TaskActionType::CopyText => (StepKind::Ops, vec![Command::CopyMessage { msg_id: step.param }]),
        TaskActionType::Comment => (StepKind::Ops, Vec::new()),
        TaskActionType::WaitKey => {
            proof {
                lemma_extra_fields(se);
            }
            (
                StepKind::WaitKey {
                    vk: step.param as i32,
                    terminate: waitkey_terminate_on_wrong(step.extra),
                    popup: waitkey_show_popup(step.extra),
                },
                Vec::new(),
            )
        },
        TaskActionType::WaitInput => {
            proof {
                lemma_extra_fields(se);
            }
            (
                StepKind::WaitInput {
                    msg_id: step.param,
                    copy: waitinput_copy(step.extra),
                    ignore: waitinput_ignore_fail(step.extra),
                    regex: waitinput_regex(step.extra),
                },
                Vec::new(),
            )
        },
        TaskActionType::ShowWindow => (StepKind::Ops, vec![Command::ShowWindow]),
        TaskActionType::HideWindow => (StepKind::Ops, vec![Command::HideWindow]),
        TaskActionType::OpenProgram => (StepKind::Ops, vec![Command::OpenProgram { path_id: step.param }]),
    };
    proof {
        assert(picks_ok(*step, picks));
        assert((kind_ops.0, kind_ops.1@) == plan_spec(*step, picks));
    }
    kind_ops
}

fn combo_commands(keys: &Vec<u8>) -> (r: Vec<Command>)
    ensures
        r@ == combo_ops(keys@),
{
    let mut v: Vec<Command> = Vec::new();
    let n = keys.len();
    let mut i: usize = 0;
    let ghost downs = Seq::new(2 * keys@.len(), |i: int| if i % 2 == 0 {
        Command::Key { vk: keys@[i / 2] as i32, down: true }
    } else {
        Command::Pause { ms: 20 }
    });
    while i < n
        invariant
            n == keys@.len(),
            0 <= i <= n,
            downs == Seq::new(2 * keys@.len(), |i: int| if i % 2 == 0 {
                Command::Key { vk: keys@[i / 2] as i32, down: true }
            } else {
                Command::Pause { ms: 20 }
            }),
            v@ == downs.take(2 * i),
        decreases n - i,
    {
        v.push(Command::Key { vk: keys[i] as i32, down: true });
        v.push(Command::Pause { ms: 20 });
        i = i + 1;
        assert(v@ =~= downs.take(2 * i));
    }
    assert(downs.take(2 * n) =~= downs);
    v.push(Command::Pause { ms: 50 });
    let ghost mid = v@;
    let ghost ups = Seq::new(2 * keys@.len(), |i: int| if i % 2 == 0 {
        Command::Key { vk: keys@[keys@.len() - 1 - i / 2] as i32, down: false }
    } else {
        Command::Pause { ms: 10 }
    });
    let mut k: usize = n;
    while k > 0
        invariant
            n == keys@.len(),
            0 <= k <= n,
            ups == Seq::new(2 * keys@.len(), |i: int| if i % 2 == 0 {
                Command::Key { vk: keys@[keys@.len() - 1 - i / 2] as i32, down: false }
            } else {
                Command::Pause { ms: 10 }
            }),
            v@ == mid + ups.take(2 * (n - k)),
        decreases k,
    {
        k = k - 1;
        v.push(Command::Key { vk: keys[k] as i32, down: false });
        v.push(Command::Pause { ms: 10 });
        assert(v@ =~= mid + ups.take(2 * (n - k)));
    }
    assert(ups.take(2 * n) =~= ups);
    assert(v@ =~= combo_ops(keys@));
    v
}

// ---------------------------------------------------------------------
// Small decisions of the executor
// ---------------------------------------------------------------------

/// The slice of an interruptible wait of `remaining` ms that is slept
/// before running is checked again: at most 100 ms.
pub fn wait_slice(remaining: u32) -> (r: u32)
    ensures
        r == (if remaining < 100 { remaining } else { 100 }),
{
    if remaining < 100 {
        remaining
    } else {
        100
    }
}

/// The round counter after one more round: it stops at `u64::MAX`.
pub fn next_total(cur: u64) -> (r: u64)
    ensures
        cur < u64::MAX ==> r == cur + 1,
        cur == u64::MAX ==> r == cur,
{
    if cur < u64::MAX {
        cur + 1
    } else {
        cur
    }
}

/// The local time zone's offset from UTC in seconds, from what
/// `GetTimeZoneInformation` reported: `result` 2 means daylight time is in
/// effect; biases are in minutes, positive west of UTC.
pub fn tz_offset_secs(result: u32, bias: i32, standard_bias: i32, daylight_bias: i32) -> (r: i64)
    ensures
        r == -(bias + (if result == 2 { daylight_bias } else { standard_bias })) * 60,
{
    let extra: i64 = if result == 2 {
        daylight_bias as i64
    } else {
        standard_bias as i64
    };
    -(bias as i64 + extra) * 60
}

/// The minute of the local day at a Unix time, the offset added with
/// wrap-around as the executor's arithmetic does.
pub open spec fn local_minute(unix_secs: u64, tz: i64) -> int {
    let local = (unix_secs as i64).wrapping_add(tz) as u64;
    ((local / 60) % 1440) as int
}

/// Whether the local time has reached `hour:minute` of the day.
pub open spec fn time_reached_spec(unix_secs: u64, tz: i64, hour: u64, minute: u64) -> bool {
    let cur = local_minute(unix_secs, tz);
    cur / 60 > hour || (cur / 60 == hour && cur % 60 >= minute)
}

/// Whether the local time has reached `hour:minute` of the day.
pub fn time_reached(unix_secs: u64, tz: i64, hour: u64, minute: u64) -> (r: bool)
    ensures
        r == time_reached_spec(unix_secs, tz, hour, minute),
{
    let local = (unix_secs as i64).wrapping_add(tz) as u64;
    let cur = (local / 60) % 1440;
    let h = cur / 60;
    let m = cur % 60;
    h > hour || (h == hour && m >= minute)
}

/// Keys that do not count as a wrong key while waiting for one: the mouse
/// buttons and codes below 8, and the shift, control, alt and Windows keys.
pub open spec fn harmless_key(k: int) -> bool {
    k < 8 || k == 0x10 || k == 0x11 || k == 0x12 || k == 0x5B || k == 0x5C || (0xA0 <= k && k <= 0xA5)
}

/// Whether key `vk` is down in a table of key states indexed by key code.
pub open spec fn key_is_down(down: Seq<bool>, vk: i32) -> bool {
    0 <= vk < down.len() && down[vk as int]
}

/// Whether a key other than `target`, among codes 1 to 255, is down and is
/// not a harmless one.
pub open spec fn wrong_key_spec(down: Seq<bool>, target: i32) -> bool {
    exists|k: int| 1 <= k <= 255 && k != target && #[trigger] key_is_down(down, k as i32) && !harmless_key(k)
}

fn key_down_exec(down: &Vec<bool>, vk: i32) -> (r: bool)
    ensures
        r == key_is_down(down@, vk),
{
    if 0 <= vk && (vk as usize) < down.len() {
        down[vk as usize]
    } else {
        false
    }
}

/// Whether a wrong key is down while waiting for `target`.
pub fn wrong_key(down: &Vec<bool>, target: i32) -> (r: bool)
    ensures
        r == wrong_key_spec(down@, target),
{
    let mut k: i32 = 1;
    while k <= 255
        invariant
            1 <= k <= 256,
            forall|j: int| 1 <= j < k && j != target ==> !(#[trigger] key_is_down(down@, j as i32)) || harmless_key(j),
        decreases 256 - k,
    {
        if k != target && key_down_exec(down, k) {
            let kk = k;
            if !(kk < 8 || kk == 0x10 || kk == 0x11 || kk == 0x12 || kk == 0x5B || kk == 0x5C || (0xA0 <= kk && kk <= 0xA5)) {
                assert(key_is_down(down@, k as int as i32));
                return true;
            }
        }
        k = k + 1;
    }
    proof {
        assert forall|j: int| 1 <= j <= 255 && j != target && #[trigger] key_is_down(down@, j as i32) implies harmless_key(j) by {
            assert(j < k);
        }
    }
    false
}

// ---------------------------------------------------------------------
// Typed text
// ---------------------------------------------------------------------

/// The characters that `char::is_whitespace` accepts (Unicode White_Space).
pub open spec fn is_space(c: char) -> bool {
    ||| c == '\t' || c == '\n' || c == '\u{0B}' || c == '\u{0C}' || c == '\r' || c == ' '
    ||| c == '\u{85}' || c == '\u{A0}' || c == '\u{1680}'
    ||| ('\u{2000}' <= c && c <= '\u{200A}')
    ||| c == '\u{2028}' || c == '\u{2029}' || c == '\u{202F}' || c == '\u{205F}' || c == '\u{3000}'
}

/// A text without its leading white space.
pub open spec fn strip_front(s: Seq<char>) -> Seq<char>
    decreases s.len(),
{
    if s.len() > 0 && is_space(s[0]) {
        strip_front(s.drop_first())
    } else {
        s
    }
}

/// A text without its trailing white space.
pub open spec fn strip_back(s: Seq<char>) -> Seq<char>
    decreases s.len(),
{
    if s.len() > 0 && is_space(s.last()) {
        strip_back(s.drop_last())
    } else {
        s
    }
}

/// A text without its leading and trailing white space, as `str::trim`.
pub open spec fn trim_spec(s: Seq<char>) -> Seq<char> {
    strip_back(strip_front(s))
}

fn is_space_exec(c: char) -> (r: bool)
    ensures
        r == is_space(c),
{
    c == '\t' || c == '\n' || c == '\u{0B}' || c == '\u{0C}' || c == '\r' || c == ' ' || c == '\u{85}'
        || c == '\u{A0}' || c == '\u{1680}' || ('\u{2000}' <= c && c <= '\u{200A}') || c == '\u{2028}'
        || c == '\u{2029}' || c == '\u{202F}' || c == '\u{205F}' || c == '\u{3000}'
}

/// A text without its leading and trailing white space.
pub fn trim(s: &str) -> (r: String)
    ensures
        r@ == trim_spec(s@),
{
    let v = chars_of(s);
    let n = v.len();
    let mut i: usize = 0;
    assert(v@.skip(0) =~= v@);
    while i < n && is_space_exec(v[i])
        invariant
            n == v@.len(),
            0 <= i <= n,
            strip_front(v@) == strip_front(v@.skip(i as int)),
        decreases n - i,
    {
        assert(v@.skip(i as int).drop_first() =~= v@.skip(i + 1));
        i = i + 1;
    }
    assert(strip_front(v@.skip(i as int)) == v@.skip(i as int));
    let ghost front = v@.skip(i as int);
    let mut j: usize = n;
    while j > i && is_space_exec(v[j - 1])
        invariant
            n == v@.len(),
            0 <= i <= j <= n,
            front == v@.skip(i as int),
            strip_back(front) == strip_back(v@.subrange(i as int, j as int)),
        decreases j,
    {
        assert(v@.subrange(i as int, j as int).drop_last() =~= v@.subrange(i as int, j - 1));
        j = j - 1;
    }
    assert(strip_back(v@.subrange(i as int, j as int)) == v@.subrange(i as int, j as int));
    let mut out = String::new();
    let mut k: usize = i;
    while k < j
        invariant
            0 <= i <= k <= j <= n,
            n == v@.len(),
            out@ == v@.subrange(i as int, k as int),
        decreases j - k,
    {
        push_char(&mut out, v[k]);
        k = k + 1;
        assert(out@ =~= v@.subrange(i as int, k as int));
    }
    assert(v@ =~= s@);
    out
}

// ---------------------------------------------------------------------
// The run as a state machine
// ---------------------------------------------------------------------

/// What a wait for a key watches.
#[derive(Clone, Copy, PartialEq, Eq, Structural, Debug)]
pub struct KeyWatch {
    /// The awaited key.
    pub vk: i32,
    /// Whether another key stops the run.
    pub terminate: bool,
    /// Whether the prompt (and the wrong-key warning) is shown.
    pub popup: bool,
    /// Whether the awaited key was down at the last look.
    pub was_down: bool,
}

/// Where a run stands, and so what the answer to its last command means.
#[derive(Clone, Copy, PartialEq, Eq, Structural, Debug)]
pub enum Phase {
    /// Nothing asked yet.
    Begin,
    /// Checking running before the current step.
    StepGate,
    /// Carrying out the current step's commands; `waiting` when the last one
    /// was a `Wait`.
    Ops { waiting: bool },
    /// Reading the cursor for a relative move.
    RelCursor { dx: i32, dy: i32, duration: u32 },
    /// Reading the screen size for a move to its centre.
    CenterScreen { duration: u32 },
    /// Matching an image.
    ImageWait { fail_id: u32, ignore: bool },
    /// Showing an image match's failure message.
    ImageFailShown { ignore: bool },
    /// Reading the time zone for a wait until a time of day.
    UntilTz { hour: u64, minute: u64 },
    /// Checking running while waiting until a time of day.
    UntilRunning { hour: u64, minute: u64, tz: i64 },
    /// Reading the clock while waiting until a time of day.
    UntilClock { hour: u64, minute: u64, tz: i64 },
    /// Sleeping a second while waiting until a time of day.
    UntilWait { hour: u64, minute: u64, tz: i64 },
    /// Showing the prompt of a wait for a key.
    KeyPrompt { vk: i32, terminate: bool },
    /// Checking running while waiting for a key.
    KeyRunning { watch: KeyWatch },
    /// Reading the keys while waiting for a key.
    KeyRead { watch: KeyWatch },
    /// Sleeping between looks at the keys.
    KeyWait { watch: KeyWatch },
    /// Showing the wrong-key warning.
    KeyWarn,
    /// Stopping after a wrong key.
    KeyStop,
    /// Checking running after a wait for a key.
    KeyAfter,
    /// Asking for typed text.
    InputAsk { copy: bool, ignore: bool, regex: bool },
    /// Copying the typed text; `go_on` when the run goes on after it.
    InputCopied { go_on: bool },
    /// Stopping after typed text that does not match.
    InputStop,
    /// Counting a finished round.
    RoundCount,
    /// Checking running before the pause between rounds.
    IntervalGate,
    /// Pausing between rounds.
    IntervalWait,
    /// Checking that the run is still the same before another round.
    LoopGate,
    /// Marking running as stopped at the end.
    Stopping,
    /// The run is over.
    Finished,
}

/// The state of a run: the task list and settings it was started with,
/// where it stands, the step it is at, the commands of that step still to
/// give, and the text last typed.
pub struct RunState {
    pub tasks: Seq<TaskStep>,
    pub task_loop: bool,
    pub interval: u64,
    pub phase: Phase,
    pub idx: int,
    pub ops: Seq<Command>,
    pub input: Seq<char>,
}

/// Whether a phase belongs to a step (so the step index is in range).
pub open spec fn in_step(phase: Phase) -> bool {
    !(phase is Begin || phase is RoundCount || phase is IntervalGate || phase is IntervalWait
        || phase is LoopGate || phase is Stopping || phase is Finished)
}

/// Whether a phase lies between rounds.
pub open spec fn between_rounds(phase: Phase) -> bool {
    phase is RoundCount || phase is IntervalGate || phase is IntervalWait || phase is LoopGate
}

/// Whether running goes on in the same run.
pub open spec fn ev_running(ev: Event) -> bool {
    match ev {
        Event::Running { clicking, same_epoch } => clicking && same_epoch,
        _ => false,
    }
}

/// Whether running goes on (whatever the run).
pub open spec fn ev_clicking(ev: Event) -> bool {
    match ev {
        Event::Running { clicking, .. } => clicking,
        _ => false,
    }
}

/// Whether it is still the same run.
pub open spec fn ev_same_run(ev: Event) -> bool {
    match ev {
        Event::Running { same_epoch, .. } => same_epoch,
        _ => false,
    }
}

/// Whether a wait ran to its end.
pub open spec fn ev_completed(ev: Event) -> bool {
    match ev {
        Event::Waited { completed } => completed,
        _ => false,
    }
}

/// Whether an image was found.
pub open spec fn ev_found(ev: Event) -> bool {
    match ev {
        Event::Matched { found } => found,
        _ => false,
    }
}

/// The cursor position answered (the origin for another answer).
pub open spec fn ev_cursor(ev: Event) -> (i32, i32) {
    match ev {
        Event::Cursor { x, y } => (x, y),
        _ => (0, 0),
    }
}

/// The screen size answered (0 by 0 for another answer).
pub open spec fn ev_screen(ev: Event) -> (i32, i32) {
    match ev {
        Event::Screen { w, h } => (w, h),
        _ => (0, 0),
    }
}

/// The time zone offset answered (0 for another answer).
pub open spec fn ev_tz(ev: Event) -> i64 {
    match ev {
        Event::TzOffset { secs } => secs,
        _ => 0,
    }
}

/// The clock answered (0 for another answer).
pub open spec fn ev_clock(ev: Event) -> u64 {
    match ev {
        Event::Clock { unix_secs } => unix_secs,
        _ => 0,
    }
}

/// Half of a coordinate, rounded toward zero as Rust's `/` does.
pub open spec fn half(w: i32) -> i32 {
    if w >= 0 {
        (w / 2) as i32
    } else {
        (-((-w) / 2)) as i32
    }
}

/// Go to a phase with a command, dropping what is left of a step's commands.
pub open spec fn to_phase(s: RunState, phase: Phase, cmd: Command) -> (RunState, Command) {
    (RunState { phase, ops: Seq::empty(), ..s }, cmd)
}

/// End the round: count it.
pub open spec fn end_round(s: RunState) -> (RunState, Command) {
    to_phase(s, Phase::RoundCount, Command::CountRound)
}

/// End the run: mark running as stopped.
pub open spec fn stop_run(s: RunState) -> (RunState, Command) {
    to_phase(s, Phase::Stopping, Command::StopRunning)
}

/// Go to step `idx`: check running first.
pub open spec fn gate(s: RunState, idx: int) -> (RunState, Command) {
    to_phase(RunState { idx, ..s }, Phase::StepGate, Command::CheckRunning)
}

/// Go on with the step after the current one, or end the round after the
/// last.
pub open spec fn next_step(s: RunState) -> (RunState, Command) {
    if s.idx + 1 < s.tasks.len() {
        gate(s, s.idx + 1)
    } else {
        end_round(s)
    }
}

/// Give the next of a step's commands, or go on when none is left.
pub open spec fn run_ops(s: RunState, ops: Seq<Command>) -> (RunState, Command) {
    if ops.len() == 0 {
        next_step(s)
    } else {
        (RunState { phase: Phase::Ops { waiting: ops[0] is Wait }, ops: ops.drop_first(), ..s }, ops[0])
    }
}

/// Start the current step with the given random choices.
pub open spec fn begin_step(s: RunState, p: Picks) -> (RunState, Command) {
    let (kind, ops) = plan_spec(s.tasks[s.idx], p);
    match kind {
        StepKind::Ops => run_ops(s, ops),
        StepKind::RelMove { dx, dy, duration } => to_phase(s, Phase::RelCursor { dx, dy, duration }, Command::QueryCursor),
        StepKind::CenterMove { duration } => to_phase(s, Phase::CenterScreen { duration }, Command::QueryScreen),
        StepKind::Image { image_id, threshold, window_id, move_mouse, fail_id, ignore } => to_phase(
            s,
            Phase::ImageWait { fail_id, ignore },
            Command::MatchImage { image_id, threshold, window_id, move_mouse },
        ),
        StepKind::Until { hour, minute } => to_phase(s, Phase::UntilTz { hour, minute }, Command::QueryTzOffset),
        StepKind::WaitKey { vk, terminate, popup } => if popup {
            to_phase(s, Phase::KeyPrompt { vk, terminate }, Command::PromptKey { vk })
        } else {
            to_phase(
                s,
                Phase::KeyRunning { watch: KeyWatch { vk, terminate, popup: false, was_down: false } },
                Command::CheckRunning,
            )
        },
        StepKind::WaitInput { msg_id, copy, ignore, regex } => to_phase(
            s,
            Phase::InputAsk { copy, ignore, regex },
            Command::AskInput { msg_id },
        ),
    }
}

/// After a failed image match: go on when failures are ignored, else end
/// the round.
pub open spec fn after_failure(s: RunState, ignore: bool) -> (RunState, Command) {
    if ignore {
        next_step(s)
    } else {
        end_round(s)
    }
}

/// After a wait for a key: check running.
pub open spec fn key_after(s: RunState) -> (RunState, Command) {
    to_phase(s, Phase::KeyAfter, Command::CheckRunning)
}

/// Before another round: check that the run is the same.
pub open spec fn loop_gate(s: RunState) -> (RunState, Command) {
    to_phase(s, Phase::LoopGate, Command::CheckRunning)
}

/// A look at the keys while waiting for `watch.vk`: done once the key was
/// down and is up again; a wrong key stops the run when `terminate`; else
/// sleep 50 ms and look again.
pub open spec fn keys_step(s: RunState, watch: KeyWatch, down: Seq<bool>) -> (RunState, Command) {
    let is_down = key_is_down(down, watch.vk);
    if watch.was_down && !is_down {
        key_after(s)
    } else if watch.terminate && wrong_key_spec(down, watch.vk) {
        if watch.popup {
            to_phase(s, Phase::KeyWarn, Command::WrongKeyWarning)
        } else {
            to_phase(s, Phase::KeyStop, Command::StopRunning)
        }
    } else {
        to_phase(s, Phase::KeyWait { watch: KeyWatch { was_down: is_down, ..watch } }, Command::Wait { ms: 50 })
    }
}

/// What typed text leads to: `output` is what the input box gave (`None`
/// when it could not be shown), `expected` the awaited message. The text is
/// trimmed and kept; it is copied first when asked and not empty; the run
/// stops unless it matches or failures are ignored.
pub open spec fn input_step(
    s: RunState,
    copy: bool,
    ignore: bool,
    regex: bool,
    output: Option<Seq<char>>,
    expected: Seq<char>,
) -> (RunState, Command) {
    match output {
        None => if ignore {
            next_step(s)
        } else {
            to_phase(s, Phase::InputStop, Command::StopRunning)
        },
        Some(raw) => {
            let input = trim_spec(raw);
            let go_on = input_matches_spec(expected, input, regex) || ignore;
            let s2 = RunState { input, ..s };
            if copy && input.len() > 0 {
                to_phase(s2, Phase::InputCopied { go_on }, Command::CopyInput)
            } else if go_on {
                next_step(s2)
            } else {
                to_phase(s2, Phase::InputStop, Command::StopRunning)
            }
        },
    }
}

/// What the answer `ev` to the last command leads to, given the random
/// choices `p` of a step that starts now.
pub open spec fn answer_spec(s: RunState, ev: Event, p: Picks) -> (RunState, Command) {
    match s.phase {
        Phase::Begin => if s.tasks.len() == 0 {
            stop_run(s)
        } else {
            gate(s, 0)
        },
        Phase::StepGate => if ev_running(ev) {
            begin_step(s, p)
        } else {
            end_round(s)
        },
        Phase::Ops { waiting } => if waiting && !ev_completed(ev) {
            end_round(s)
        } else {
            run_ops(s, s.ops)
        },
        Phase::RelCursor { dx, dy, duration } => run_ops(
            s,
            seq![Command::SmoothMove { x: ev_cursor(ev).0.wrapping_add(dx), y: ev_cursor(ev).1.wrapping_add(dy), duration_ms: duration }],
        ),
        Phase::CenterScreen { duration } => run_ops(
            s,
            seq![Command::SmoothMove { x: half(ev_screen(ev).0), y: half(ev_screen(ev).1), duration_ms: duration }],
        ),
        Phase::ImageWait { fail_id, ignore } => if ev_found(ev) {
            next_step(s)
        } else if fail_id != 0 {
            to_phase(
                s,
                Phase::ImageFailShown { ignore },
                Command::ShowMessage { kind: MessageKind::ImageFailed, msg_id: fail_id as u64 },
            )
        } else {
            after_failure(s, ignore)
        },
        Phase::ImageFailShown { ignore } => after_failure(s, ignore),
        Phase::UntilTz { hour, minute } => to_phase(s, Phase::UntilRunning { hour, minute, tz: ev_tz(ev) }, Command::CheckRunning),
        Phase::UntilRunning { hour, minute, tz } => if ev_running(ev) {
            to_phase(s, Phase::UntilClock { hour, minute, tz }, Command::QueryClock)
        } else {
            next_step(s)
        },
        Phase::UntilClock { hour, minute, tz } => if time_reached_spec(ev_clock(ev), tz, hour, minute) {
            next_step(s)
        } else {
            to_phase(s, Phase::UntilWait { hour, minute, tz }, Command::Wait { ms: 1000 })
        },
        Phase::UntilWait { hour, minute, tz } => if ev_completed(ev) {
            to_phase(s, Phase::UntilRunning { hour, minute, tz }, Command::CheckRunning)
        } else {
            next_step(s)
        },
        Phase::KeyPrompt { vk, terminate } => to_phase(
            s,
            Phase::KeyRunning { watch: KeyWatch { vk, terminate, popup: true, was_down: false } },
            Command::CheckRunning,
        ),
        Phase::KeyRunning { watch } => if ev_running(ev) {
            to_phase(s, Phase::KeyRead { watch }, Command::ReadKeys)
        } else {
            key_after(s)
        },
        Phase::KeyRead { watch } => keys_step(s, watch, Seq::empty()),
        Phase::KeyWait { watch } => if ev_completed(ev) {
            to_phase(s, Phase::KeyRunning { watch }, Command::CheckRunning)
        } else {
            key_after(s)
        },
        Phase::KeyWarn => to_phase(s, Phase::KeyStop, Command::StopRunning),
        Phase::KeyStop => key_after(s),
        Phase::KeyAfter => if ev_clicking(ev) {
            next_step(s)
        } else {
            end_round(s)
        },
        Phase::InputAsk { copy, ignore, regex } => input_step(s, copy, ignore, regex, None, Seq::empty()),
        Phase::InputCopied { go_on } => if go_on {
            next_step(s)
        } else {
            to_phase(s, Phase::InputStop, Command::StopRunning)
        },
        Phase::InputStop => end_round(s),
        Phase::RoundCount => if !s.task_loop {
            stop_run(s)
        } else if s.interval > 0 {
            to_phase(s, Phase::IntervalGate, Command::CheckRunning)
        } else {
            loop_gate(s)
        },
        Phase::IntervalGate => if ev_clicking(ev) {
            to_phase(s, Phase::IntervalWait, Command::Wait { ms: s.interval as u32 })
        } else {
            loop_gate(s)
        },
        Phase::IntervalWait => if ev_completed(ev) {
            loop_gate(s)
        } else {
            stop_run(s)
        },
        Phase::LoopGate => if ev_same_run(ev) {
            gate(s, 0)
        } else {
            stop_run(s)
        },
        Phase::Stopping => to_phase(s, Phase::Finished, Command::Finished),
        Phase::Finished => to_phase(s, Phase::Finished, Command::Finished),
    }
}

/// What the key states `down` lead to; outside a look at the keys, the same
/// as an answer `Done`.
pub open spec fn keys_answer_spec(s: RunState, down: Seq<bool>, p: Picks) -> (RunState, Command) {
    match s.phase {
        Phase::KeyRead { watch } => keys_step(s, watch, down),
        _ => answer_spec(s, Event::Done, p),
    }
}

/// What typed text leads to; outside a question for text, the same as an
/// answer `Done`.
pub open spec fn input_answer_spec(s: RunState, output: Option<Seq<char>>, expected: Seq<char>, p: Picks) -> (
    RunState,
    Command,
) {
    match s.phase {
        Phase::InputAsk { copy, ignore, regex } => input_step(s, copy, ignore, regex, output, expected),
        _ => answer_spec(s, Event::Done, p),
    }
}

/// Random choices that are always allowed: no offset, the lower delay bound.
pub open spec fn calm_picks(step: TaskStep) -> Picks {
    Picks { ox: 0, oy: 0, delay: (step.param % 0x1_0000_0000) as int }
}

proof fn lemma_calm_picks_ok(step: TaskStep)
    ensures
        picks_ok(step, calm_picks(step)),
{
}

/// The step a state stands at.
pub open spec fn current_step(s: RunState) -> TaskStep {
    s.tasks[s.idx]
}

/// The text an input box gave, as characters.
pub open spec fn opt_chars(o: Option<String>) -> Option<Seq<char>> {
    match o {
        Some(t) => Some(t@),
        None => None,
    }
}

fn is_wait(c: Command) -> (r: bool)
    ensures
        r == (c is Wait),
{
    match c {
        Command::Wait { .. } => true,
        _ => false,
    }
}

fn ev_running_exec(ev: Event) -> (r: bool)
    ensures
        r == ev_running(ev),
{
    match ev {
        Event::Running { clicking, same_epoch } => clicking && same_epoch,
        _ => false,
    }
}

fn ev_clicking_exec(ev: Event) -> (r: bool)
    ensures
        r == ev_clicking(ev),
{
    match ev {
        Event::Running { clicking, .. } => clicking,
        _ => false,
    }
}

fn ev_same_run_exec(ev: Event) -> (r: bool)
    ensures
        r == ev_same_run(ev),
{
    match ev {
        Event::Running { same_epoch, .. } => same_epoch,
        _ => false,
    }
}

fn ev_completed_exec(ev: Event) -> (r: bool)
    ensures
        r == ev_completed(ev),
{
    match ev {
        Event::Waited { completed } => completed,
        _ => false,
    }
}

fn half_exec(w: i32) -> (r: i32)
    ensures
        r == half(w),
{
    if w >= 0 {
        w / 2
    } else {
        let m = (-(w as i64)) as u64 / 2;
        -(m as i64) as i32
    }
}

/// A run of a task list. Create it with [`Runner::new`], then call
/// [`Runner::answer`] with `Event::Done` for the first command, and after
/// each command give what came of it: `answer` for most,
/// [`Runner::answer_keys`] after `ReadKeys`, [`Runner::answer_input`] after
/// `AskInput`. The run is over at `Finished`.
pub struct Runner {
    tasks: Vec<TaskStep>,
    task_loop: bool,
    interval: u64,
    phase: Phase,
    idx: usize,
    ops: Vec<Command>,
    pos: usize,
    input: String,
}

impl View for Runner {
    type V = RunState;

    closed spec fn view(&self) -> RunState {
        RunState {
            tasks: self.tasks@,
            task_loop: self.task_loop,
            interval: self.interval,
            phase: self.phase,
            idx: self.idx as int,
            ops: self.ops@.skip(self.pos as int),
            input: self.input@,
        }
    }
}

impl Runner {
    /// The runner's own consistency: the step index is in range within a
    /// step and the list is not empty between rounds.
    pub closed spec fn wf(&self) -> bool {
        &&& self.pos <= self.ops@.len()
        &&& (in_step(self.phase) ==> self.idx < self.tasks@.len())
        &&& (between_rounds(self.phase) ==> self.tasks@.len() > 0)
    }

    /// A run of `tasks`, looping when `task_loop`, pausing `interval` ms
    /// between rounds.
    pub fn new(tasks: Vec<TaskStep>, task_loop: bool, interval: u64) -> (r: Runner)
        ensures
            r.wf(),
            r@ == (RunState {
                tasks: tasks@,
                task_loop,
                interval,
                phase: Phase::Begin,
                idx: 0,
                ops: Seq::empty(),
                input: Seq::empty(),
            }),
    {
        let r = Runner {
            tasks,
            task_loop,
            interval,
            phase: Phase::Begin,
            idx: 0,
            ops: Vec::new(),
            pos: 0,
            input: String::new(),
        };
        assert(r.ops@.skip(0) =~= Seq::<Command>::empty());
        r
    }

    /// The text last typed (trimmed), which `CopyInput` copies.
    pub fn last_input(&self) -> (r: &str)
        ensures
            r@ == self@.input,
    {
        self.input.as_str()
    }

    fn go(&mut self, phase: Phase, cmd: Command) -> (r: Command)
        requires
            in_step(phase) ==> old(self).idx < old(self).tasks@.len(),
            between_rounds(phase) ==> old(self).tasks@.len() > 0,
        ensures
            final(self).wf(),
            (final(self)@, r) == to_phase(old(self)@, phase, cmd),
    {
        self.phase = phase;
        self.ops = Vec::new();
        self.pos = 0;
        assert(self.ops@.skip(0) =~= Seq::<Command>::empty());
        assert(self@ == to_phase(old(self)@, phase, cmd).0);
        cmd
    }

    fn end_round(&mut self) -> (r: Command)
        requires
            old(self).tasks@.len() > 0,
        ensures
            final(self).wf(),
            (final(self)@, r) == end_round(old(self)@),
    {
        self.go(Phase::RoundCount, Command::CountRound)
    }

    fn stop_run(&mut self) -> (r: Command)
        ensures
            final(self).wf(),
            (final(self)@, r) == stop_run(old(self)@),
    {
        self.go(Phase::Stopping, Command::StopRunning)
    }

    fn next_step(&mut self) -> (r: Command)
        requires
            old(self).idx < old(self).tasks@.len(),
        ensures
            final(self).wf(),
            (final(self)@, r) == next_step(old(self)@),
    {
        let n = self.tasks.len();
        if self.idx + 1 < n {
            self.idx = self.idx + 1;
            self.go(Phase::StepGate, Command::CheckRunning)
        } else {
            self.end_round()
        }
    }

    fn pop_op(&mut self) -> (r: Command)
        requires
            old(self).idx < old(self).tasks@.len(),
            old(self).pos <= old(self).ops@.len(),
        ensures
            final(self).wf(),
            (final(self)@, r) == run_ops(old(self)@, old(self)@.ops),
    {
        if self.pos < self.ops.len() {
            let c = self.ops[self.pos];
            self.pos = self.pos + 1;
            self.phase = Phase::Ops { waiting: is_wait(c) };
            assert(old(self).ops@.skip(old(self).pos as int).drop_first() =~= self.ops@.skip(self.pos as int));
            c
        } else {
            self.next_step()
        }
    }

    fn run_ops(&mut self, ops: Vec<Command>) -> (r: Command)
        requires
            old(self).idx < old(self).tasks@.len(),
        ensures
            final(self).wf(),
            (final(self)@, r) == run_ops(old(self)@, ops@),
    {
        let ghost v = ops@;
        self.ops = ops;
        self.pos = 0;
        assert(self.ops@.skip(0) =~= v);
        self.pop_op()
    }

    fn begin_step(&mut self) -> (r: Command)
        requires
            old(self).idx < old(self).tasks@.len(),
        ensures
            final(self).wf(),
            exists|p: Picks| picks_ok(current_step(old(self)@), p) && (final(self)@, r) == begin_step(old(self)@, p),
    {
        let (kind, ops) = plan_step(&self.tasks[self.idx]);
        let ghost step = self.tasks@[self.idx as int];
        let ghost p = choose|p: Picks| picks_ok(step, p) && (kind, ops@) == plan_spec(step, p);
        let r = match kind {
            StepKind::Ops => self.run_ops(ops),
            StepKind::RelMove { dx, dy, duration } => self.go(Phase::RelCursor { dx, dy, duration }, Command::QueryCursor),
            StepKind::CenterMove { duration } => self.go(Phase::CenterScreen { duration }, Command::QueryScreen),
            StepKind::Image { image_id, threshold, window_id, move_mouse, fail_id, ignore } => self.go(
                Phase::ImageWait { fail_id, ignore },
                Command::MatchImage { image_id, threshold, window_id, move_mouse },
            ),
            StepKind::Until { hour, minute } => self.go(Phase::UntilTz { hour, minute }, Command::QueryTzOffset),
            StepKind::WaitKey { vk, terminate, popup } => if popup {
                self.go(Phase::KeyPrompt { vk, terminate }, Command::PromptKey { vk })
            } else {
                self.go(
                    Phase::KeyRunning { watch: KeyWatch { vk, terminate, popup: false, was_down: false } },
                    Command::CheckRunning,
                )
            },
            StepKind::WaitInput { msg_id, copy, ignore, regex } => self.go(
                Phase::InputAsk { copy, ignore, regex },
                Command::AskInput { msg_id },
            ),
        };
        assert(picks_ok(current_step(old(self)@), p) && (self@, r) == begin_step(old(self)@, p));
        r
    }

    fn look_at_keys(&mut self, watch: KeyWatch, down: &Vec<bool>) -> (r: Command)
        requires
            old(self).idx < old(self).tasks@.len(),
        ensures
            final(self).wf(),
            (final(self)@, r) == keys_step(old(self)@, watch, down@),
    {
        let is_down = key_down_exec(down, watch.vk);
        if watch.was_down && !is_down {
            self.go(Phase::KeyAfter, Command::CheckRunning)
        } else if watch.terminate && wrong_key(down, watch.vk) {
            if watch.popup {
                self.go(Phase::KeyWarn, Command::WrongKeyWarning)
            } else {
                self.go(Phase::KeyStop, Command::StopRunning)
            }
        } else {
            self.go(Phase::KeyWait { watch: KeyWatch { was_down: is_down, ..watch } }, Command::Wait { ms: 50 })
        }
    }

    fn take_input(&mut self, copy: bool, ignore: bool, regex: bool, output: Option<String>, expected: &str) -> (r:
        Command)
        requires
            old(self).idx < old(self).tasks@.len(),
        ensures
            final(self).wf(),
            (final(self)@, r) == input_step(old(self)@, copy, ignore, regex, opt_chars(output), expected@),
    {
        match output {
            None => if ignore {
                self.next_step()
            } else {
                self.go(Phase::InputStop, Command::StopRunning)
            },
            Some(raw) => {
                let input = trim(raw.as_str());
                let matched = input_matches(expected, input.as_str(), regex);
                let go_on = matched || ignore;
                let nonempty = char_len(input.as_str()) > 0;
                self.input = input;
                if copy && nonempty {
                    self.go(Phase::InputCopied { go_on }, Command::CopyInput)
                } else if go_on {
                    self.next_step()
                } else {
                    self.go(Phase::InputStop, Command::StopRunning)
                }
            },
        }
    }

    /// The next command, given what came of the last one (`Event::Done`
    /// before the first). Random choices of a step that starts now are
    /// drawn within what the step allows.
    pub fn answer(&mut self, ev: Event) -> (r: Command)
        requires
            old(self).wf(),
        ensures
            final(self).wf(),
            exists|p: Picks| picks_ok(current_step(old(self)@), p) && (final(self)@, r) == answer_spec(old(self)@, ev, p),
    {
        proof {
            lemma_calm_picks_ok(current_step(self@));
        }
        let ghost calm = calm_picks(current_step(self@));
        let r = match self.phase {
            Phase::Begin => {
                if self.tasks.len() == 0 {
                    self.stop_run()
                } else {
                    self.idx = 0;
                    self.go(Phase::StepGate, Command::CheckRunning)
                }
            },
            Phase::StepGate => {
                if ev_running_exec(ev) {
                    self.begin_step()
                } else {
                    self.end_round()
                }
            },
            Phase::Ops { waiting } => {
                if waiting && !ev_completed_exec(ev) {
                    self.end_round()
                } else {
                    self.pop_op()
                }
            },
            Phase::RelCursor { dx, dy, duration } => {
                let (x, y) = match ev {
                    Event::Cursor { x, y } => (x, y),
                    _ => (0, 0),
                };
                let mv = Command::SmoothMove { x: x.wrapping_add(dx), y: y.wrapping_add(dy), duration_ms: duration };
                let v = vec![mv];
                assert(v@ =~= seq![mv]);
                self.run_ops(v)
            },
            Phase::CenterScreen { duration } => {
                let (w, h) = match ev {
                    Event::Screen { w, h } => (w, h),
                    _ => (0, 0),
                };
                let mv = Command::SmoothMove { x: half_exec(w), y: half_exec(h), duration_ms: duration };
                let v = vec![mv];
                assert(v@ =~= seq![mv]);
                self.run_ops(v)
            },
            Phase::ImageWait { fail_id, ignore } => {
                let found = match ev {
                    Event::Matched { found } => found,
                    _ => false,
                };
                if found {
                    self.next_step()
                } else if fail_id != 0 {
                    self.go(
                        Phase::ImageFailShown { ignore },
                        Command::ShowMessage { kind: MessageKind::ImageFailed, msg_id: fail_id as u64 },
                    )
                } else if ignore {
                    self.next_step()
                } else {
                    self.end_round()
                }
            },
            Phase::ImageFailShown { ignore } => {
                if ignore {
                    self.next_step()
                } else {
                    self.end_round()
                }
            },
            Phase::UntilTz { hour, minute } => {
                let tz = match ev {
                    Event::TzOffset { secs } => secs,
                    _ => 0,
                };
                self.go(Phase::UntilRunning { hour, minute, tz }, Command::CheckRunning)
            },
            Phase::UntilRunning { hour, minute, tz } => {
                if ev_running_exec(ev) {
                    self.go(Phase::UntilClock { hour, minute, tz }, Command::QueryClock)
                } else {
                    self.next_step()
                }
            },
            Phase::UntilClock { hour, minute, tz } => {
                let now = match ev {
                    Event::Clock { unix_secs } => unix_secs,
                    _ => 0,
                };
                if time_reached(now, tz, hour, minute) {
                    self.next_step()
                } else {
                    self.go(Phase::UntilWait { hour, minute, tz }, Command::Wait { ms: 1000 })
                }
            },
            Phase::UntilWait { hour, minute, tz } => {
                if ev_completed_exec(ev) {
                    self.go(Phase::UntilRunning { hour, minute, tz }, Command::CheckRunning)
                } else {
                    self.next_step()
                }
            },
            Phase::KeyPrompt { vk, terminate } => self.go(
                Phase::KeyRunning { watch: KeyWatch { vk, terminate, popup: true, was_down: false } },
                Command::CheckRunning,
            ),
            Phase::KeyRunning { watch } => {
                if ev_running_exec(ev) {
                    self.go(Phase::KeyRead { watch }, Command::ReadKeys)
                } else {
                    self.go(Phase::KeyAfter, Command::CheckRunning)
                }
            },
            Phase::KeyRead { watch } => {
                let none: Vec<bool> = Vec::new();
                assert(none@ =~= Seq::<bool>::empty());
                self.look_at_keys(watch, &none)
            },
            Phase::KeyWait { watch } => {
                if ev_completed_exec(ev) {
                    self.go(Phase::KeyRunning { watch }, Command::CheckRunning)
                } else {
                    self.go(Phase::KeyAfter, Command::CheckRunning)
                }
            },
            Phase::KeyWarn => self.go(Phase::KeyStop, Command::StopRunning),
            Phase::KeyStop => self.go(Phase::KeyAfter, Command::CheckRunning),
            Phase::KeyAfter => {
                if ev_clicking_exec(ev) {
                    self.next_step()
                } else {
                    self.end_round()
                }
            },
            Phase::InputAsk { copy, ignore, regex } => self.take_input(copy, ignore, regex, None, ""),
            Phase::InputCopied { go_on } => {
                if go_on {
                    self.next_step()
                } else {
                    self.go(Phase::InputStop, Command::StopRunning)
                }
            },
            Phase::InputStop => self.end_round(),
            Phase::RoundCount => {
                if !self.task_loop {
                    self.stop_run()
                } else if self.interval > 0 {
                    self.go(Phase::IntervalGate, Command::CheckRunning)
                } else {
                    self.go(Phase::LoopGate, Command::CheckRunning)
                }
            },
            Phase::IntervalGate => {
                if ev_clicking_exec(ev) {
                    let ms = self.interval as u32;
                    self.go(Phase::IntervalWait, Command::Wait { ms })
                } else {
                    self.go(Phase::LoopGate, Command::CheckRunning)
                }
            },
            Phase::IntervalWait => {
                if ev_completed_exec(ev) {
                    self.go(Phase::LoopGate, Command::CheckRunning)
                } else {
                    self.stop_run()
                }
            },
            Phase::LoopGate => {
                if ev_same_run_exec(ev) {
                    self.idx = 0;
                    self.go(Phase::StepGate, Command::CheckRunning)
                } else {
                    self.stop_run()
                }
            },
            Phase::Stopping => self.go(Phase::Finished, Command::Finished),
            Phase::Finished => self.go(Phase::Finished, Command::Finished),
        };
        proof {
            if old(self).phase is StepGate && ev_running(ev) {
                let p = choose|p: Picks|
                    picks_ok(current_step(old(self)@), p) && (self@, r) == begin_step(old(self)@, p);
                assert(answer_spec(old(self)@, ev, p) == begin_step(old(self)@, p));
            } else {
                assert((self@, r) == answer_spec(old(self)@, ev, calm));
            }
        }
        r
    }

    /// The next command after `ReadKeys`, given which keys are down
    /// (indexed by key code, 256 entries).
    pub fn answer_keys(&mut self, down: &Vec<bool>) -> (r: Command)
        requires
            old(self).wf(),
        ensures
            final(self).wf(),
            exists|p: Picks| picks_ok(current_step(old(self)@), p) && (final(self)@, r) == keys_answer_spec(old(self)@, down@, p),
    {
        match self.phase {
            Phase::KeyRead { watch } => {
                let r = self.look_at_keys(watch, down);
                proof {
                    lemma_calm_picks_ok(current_step(old(self)@));
                    assert((self@, r) == keys_answer_spec(old(self)@, down@, calm_picks(current_step(old(self)@))));
                }
                r
            },
            _ => self.answer(Event::Done),
        }
    }

    /// The next command after `AskInput`, given what the input box gave
    /// (`None` when it could not be shown) and the awaited message.
    pub fn answer_input(&mut self, output: Option<String>, expected: &str) -> (r: Command)
        requires
            old(self).wf(),
        ensures
            final(self).wf(),
            exists|p: Picks|
                picks_ok(current_step(old(self)@), p) && (final(self)@, r) == input_answer_spec(
                    old(self)@,
                    opt_chars(output),
                    expected@,
                    p,
                ),
    {
        match self.phase {
            Phase::InputAsk { copy, ignore, regex } => {
                let ghost out = opt_chars(output);
                let r = self.take_input(copy, ignore, regex, output, expected);
                proof {
                    lemma_calm_picks_ok(current_step(old(self)@));
                    assert((self@, r) == input_answer_spec(old(self)@, out, expected@, calm_picks(current_step(old(self)@))));
                }
                r
            },
            _ => self.answer(Event::Done),
        }
    }
}

} // verus!
