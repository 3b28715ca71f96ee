//! Laws of a run: what every sequence of answers leads to.

use vstd::prelude::*;
use crate::constants::{TaskActionType, TaskStep};
use crate::runner::{
    Command, Event, Phase, Picks, RunState, StepKind, answer_spec, input_answer_spec, keys_answer_spec,
    picks_ok, plan_spec,
};

verus! {

/// The answer to a command once running has stopped: every check says
/// running stopped in another run, every wait ended early, everything else
/// is simply done.
pub open spec fn stopped_answer(cmd: Command) -> Event {
    match cmd {
        Command::CheckRunning => Event::Running { clicking: false, same_epoch: false },
        Command::Wait { .. } => Event::Waited { completed: false },
        _ => Event::Done,
    }
}

/// The state and command after `n` answers given once running has stopped,
/// starting from state `s` with command `cmd` outstanding.
pub open spec fn drive_stopped(s: RunState, cmd: Command, n: nat, p: Picks) -> (RunState, Command)
    decreases n,
{
    if n == 0 {
        (s, cmd)
    } else {
        let (s2, c2) = answer_spec(s, stopped_answer(cmd), p);
        drive_stopped(s2, c2, (n - 1) as nat, p)
    }
}

/// How many answers a stopped run still needs, at most, to finish.
pub open spec fn stop_bound(s: RunState) -> nat {
    match s.phase {
        Phase::Finished => 0,
        Phase::Stopping => 1,
        Phase::LoopGate => 2,
        Phase::IntervalWait => 2,
        Phase::IntervalGate => 3,
        Phase::RoundCount => 4,
        Phase::StepGate => 5,
        Phase::InputStop => 5,
        Phase::Ops { .. } => 6 + s.ops.len(),
        Phase::RelCursor { .. } => 7,
        Phase::CenterScreen { .. } => 7,
        Phase::ImageWait { .. } => 7,
        Phase::UntilTz { .. } => 7,
        Phase::UntilClock { .. } => 7,
        Phase::KeyStop => 7,
        Phase::KeyWait { .. } => 7,
        Phase::KeyRunning { .. } => 7,
        Phase::KeyPrompt { .. } => 8,
        Phase::KeyRead { .. } => 8,
        Phase::KeyWarn => 8,
        _ => 6,
    }
}

proof fn lemma_stop_step(s: RunState, cmd: Command, p: Picks)
    requires
        !(s.phase is Finished),
    ensures
        stop_bound(answer_spec(s, stopped_answer(cmd), p).0) < stop_bound(s),
{
}

proof fn lemma_stop_drive(s: RunState, cmd: Command, n: nat, p: Picks)
    requires
        n >= stop_bound(s),
    ensures
        drive_stopped(s, cmd, n, p).0.phase is Finished,
    decreases n,
{
    if n > 0 {
        if s.phase is Finished {
            lemma_finished_stays(s, stopped_answer(cmd), p);
        } else {
            lemma_stop_step(s, cmd, p);
        }
        let (s2, c2) = answer_spec(s, stopped_answer(cmd), p);
        lemma_stop_drive(s2, c2, (n - 1) as nat, p);
    }
}

/// Stopping works from anywhere: once running has stopped (checks say so,
/// waits end early), a run is over after at most the step's remaining
/// commands and eight more answers, whatever it was doing.
pub proof fn lemma_stopped_run_finishes(s: RunState, cmd: Command, p: Picks)
    ensures
        drive_stopped(s, cmd, s.ops.len() + 8, p).0.phase is Finished,
{
    lemma_stop_drive(s, cmd, s.ops.len() + 8, p);
}

/// Once over, a run stays over and answers `Finished` to anything.
pub proof fn lemma_finished_stays(s: RunState, ev: Event, p: Picks)
    requires
        s.phase is Finished,
    ensures
        answer_spec(s, ev, p).0.phase is Finished,
        answer_spec(s, ev, p).1 == Command::Finished,
{
}

/// An empty task list does nothing: running is marked stopped at once, and
/// the run is over at the next answer.
pub proof fn lemma_empty_list_stops(s: RunState, ev1: Event, ev2: Event, p1: Picks, p2: Picks)
    requires
        s.phase is Begin,
        s.tasks.len() == 0,
    ensures
        answer_spec(s, ev1, p1).1 == Command::StopRunning,
        answer_spec(answer_spec(s, ev1, p1).0, ev2, p2).1 == Command::Finished,
        answer_spec(answer_spec(s, ev1, p1).0, ev2, p2).0.phase is Finished,
{
}

/// A stop seen before a step ends the round at once: the step is not run.
pub proof fn lemma_stop_before_step(s: RunState, ev: Event, p: Picks)
    requires
        s.phase is StepGate,
        !(ev matches Event::Running { clicking: true, same_epoch: true }),
    ensures
        answer_spec(s, ev, p).1 == Command::CountRound,
        answer_spec(s, ev, p).0.phase is RoundCount,
{
}

/// What holds of a run without looping: its between-round checks are never
/// entered and it is at its first step when it begins.
pub open spec fn single_pass(s: RunState) -> bool {
    &&& !s.task_loop
    &&& !(s.phase is IntervalGate || s.phase is IntervalWait || s.phase is LoopGate)
    &&& (s.phase is Begin ==> s.idx == 0)
}

/// A run without looping goes through its list once: whatever the answers,
/// the step index never moves back and no new round begins.
pub proof fn lemma_single_pass(s: RunState, ev: Event, down: Seq<bool>, out: Option<Seq<char>>, expected: Seq<char>, p: Picks)
    requires
        single_pass(s),
    ensures
        single_pass(answer_spec(s, ev, p).0),
        answer_spec(s, ev, p).0.idx >= s.idx,
        answer_spec(s, ev, p).0.tasks == s.tasks,
        single_pass(keys_answer_spec(s, down, p).0),
        keys_answer_spec(s, down, p).0.idx >= s.idx,
        single_pass(input_answer_spec(s, out, expected, p).0),
        input_answer_spec(s, out, expected, p).0.idx >= s.idx,
{
}

/// Between rounds of a looping run, the interval is slept (when it is not
/// 0 and running goes on).
pub proof fn lemma_interval_between_rounds(s: RunState, ev1: Event, same: bool, p1: Picks, p2: Picks)
    requires
        s.phase is RoundCount,
        s.task_loop,
        s.interval > 0,
    ensures
        answer_spec(s, ev1, p1).1 == Command::CheckRunning,
        answer_spec(answer_spec(s, ev1, p1).0, Event::Running { clicking: true, same_epoch: same }, p2).1
            == (Command::Wait { ms: s.interval as u32 }),
{
}

/// A looping run starts over at its first step while it is the same run.
pub proof fn lemma_loop_starts_over(s: RunState, p: Picks)
    requires
        s.phase is LoopGate,
    ensures
        answer_spec(s, Event::Running { clicking: true, same_epoch: true }, p).0.phase is StepGate,
        answer_spec(s, Event::Running { clicking: true, same_epoch: true }, p).0.idx == 0,
        answer_spec(s, Event::Running { clicking: true, same_epoch: true }, p).1 == Command::CheckRunning,
{
}

/// A delay step waits between 1 ms and a minute.
pub proof fn lemma_delay_clamped(step: TaskStep, p: Picks)
    requires
        step.action == TaskActionType::Delay,
    ensures
        plan_spec(step, p).0 == StepKind::Ops,
        plan_spec(step, p).1.len() == 1,
        plan_spec(step, p).1[0] matches Command::Wait { ms } && 1 <= ms <= 60000,
{
}

/// A random delay waits a drawn time within its bounds (at least 1 ms),
/// or its lower bound when the bounds do not increase.
pub proof fn lemma_random_delay_in_range(step: TaskStep, p: Picks)
    requires
        step.action == TaskActionType::RandomDelay,
        picks_ok(step, p),
    ensures
        plan_spec(step, p).1.len() == 1,
        ({
            let lo = step.param % 0x1_0000_0000;
            let hi = step.param / 0x1_0000_0000;
            plan_spec(step, p).1[0] matches Command::Wait { ms } && ms >= 1 && (hi > lo ==> (lo <= ms <= hi
                || (lo == 0 && ms == 1))) && (hi <= lo ==> ms == (if lo == 0 { 1 } else { lo }))
        }),
{
}

/// A jittered click moves the cursor by at most the jitter radius first,
/// and puts it back at the end.
pub proof fn lemma_click_jitter_bounded(step: TaskStep, p: Picks)
    requires
        step.action == TaskActionType::MouseClick,
        picks_ok(step, p),
        (step.extra as i32) > 0,
    ensures
        plan_spec(step, p).1.len() == 5,
        plan_spec(step, p).1[0] matches Command::Nudge { dx, dy } && -(step.extra as i32) <= dx <= (step.extra as i32)
            && -(step.extra as i32) <= dy <= (step.extra as i32),
        plan_spec(step, p).1[4] == Command::RestoreCursor,
{
}

/// Key steps act on the key in the low 16 bits of their parameter: a key
/// press presses it, holds, and releases the same key; a key-down step only
/// presses it and a key-up step only releases it, so a key-down and a
/// key-up of the same key leave it released.
pub proof fn lemma_key_steps(step: TaskStep, p: Picks)
    ensures
        step.action == TaskActionType::KeyDown ==> {
            &&& plan_spec(step, p).0 == StepKind::Ops
            &&& plan_spec(step, p).1.len() == 1
            &&& plan_spec(step, p).1[0] matches Command::Key { vk, down }
            &&& down && vk == step.param % 0x10000
        },
        step.action == TaskActionType::KeyUp ==> {
            &&& plan_spec(step, p).0 == StepKind::Ops
            &&& plan_spec(step, p).1.len() == 1
            &&& plan_spec(step, p).1[0] matches Command::Key { vk, down }
            &&& !down && vk == step.param % 0x10000
        },
        step.action == TaskActionType::KeyPress ==> {
            &&& plan_spec(step, p).0 == StepKind::Ops
            &&& plan_spec(step, p).1.len() == 3
            &&& plan_spec(step, p).1[0] matches Command::Key { vk, down }
            &&& down && vk == step.param % 0x10000
            &&& plan_spec(step, p).1[2] == (Command::Key { vk, down: false })
        },
{
}

/// A wheel step turns the wheel once, up exactly when its parameter is
/// not 0.
pub proof fn lemma_wheel_step(step: TaskStep, p: Picks)
    requires
        step.action == TaskActionType::MouseWheel,
    ensures
        plan_spec(step, p).0 == StepKind::Ops,
        (plan_spec(step, p).1[0] matches Command::Wheel { up } && up == (step.param != 0)),
        forall|i: int| 1 <= i < plan_spec(step, p).1.len() ==> !(#[trigger] plan_spec(step, p).1[i] is Wheel),
{
}

/// The `MOUSEEVENTF_*DOWN` flag of a button number: right (1), middle (2),
/// else left.
pub open spec fn press_flag(btn: int) -> u32 {
    if btn == 1 {
        0x0008
    } else if btn == 2 {
        0x0020
    } else {
        0x0002
    }
}

/// Button steps act on the button in the low byte of their parameter: a
/// button-down step sends only that button's press, a button-up step only
/// its release (Windows' release flag is twice the press flag), and a click
/// presses, holds, and releases the same button; a jitter only adds a
/// nudge before and a cursor restore after.
pub proof fn lemma_button_steps(step: TaskStep, p: Picks)
    ensures
        ({
            let plan = plan_spec(step, p).1;
            let k: int = if (step.extra as i32) > 0 { 1 } else { 0 };
            let btn = (step.param % 256) as int;
            &&& step.action == TaskActionType::MouseDown ==> plan.len() == 2 * k + 1 && plan[k] == (Command::MouseButton {
                flags: press_flag(btn),
            })
            &&& step.action == TaskActionType::MouseUp ==> plan.len() == 2 * k + 1 && plan[k] == (Command::MouseButton {
                flags: (2 * press_flag(btn)) as u32,
            })
            &&& step.action == TaskActionType::MouseClick ==> plan.len() == 2 * k + 3 && plan[k] == (Command::MouseButton {
                flags: press_flag(btn),
            }) && plan[k + 1] is Wait && plan[k + 2] == (Command::MouseButton { flags: (2 * press_flag(btn)) as u32 })
        }),
{
}

} // verus!
