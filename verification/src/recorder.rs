//! The recorder: turns mouse events and keyboard snapshots into task steps,
//! and merges runs of consecutive moves.
//!
//! Times are readings of a monotonic millisecond clock taken by the caller;
//! an elapsed time is the difference of two readings, never negative.

use vstd::prelude::*;
use crate::constants::{
    lemma_extra_fields, lemma_i32_bits, lemma_param_fields,
    TaskActionType, TaskStep, combo_keys_of, move_param, pack_combo, pack_move, unpack_combo,
    unpack_move, RELATIVE_FLAG,
};
use crate::keys::{is_mouse_vk, is_mouse_vk_spec};
use crate::runner::{plan_spec, Command, Picks};

verus! {

/// A mouse event seen by the recording hook.
#[derive(Clone, Copy, PartialEq, Eq, Structural, Debug)]
pub enum RecEvent {
    /// A button went down at a screen position (0 left, 1 right, 2 middle,
    /// 3 and 4 the side buttons).
    MouseDown { button: i32, x: i32, y: i32 },
    /// The pointer moved by an offset.
    MouseMove { dx: i32, dy: i32 },
    /// The wheel turned up or down.
    Wheel { up: bool },
}

/// Hold time from which a key release turns its step into a long press.
pub const LONG_PRESS_MS: u64 = 300;

/// Pauses shorter than this are not recorded.
pub const MIN_PAUSE_MS: u64 = 30;

/// Longest recorded pause or move duration.
pub const MAX_PAUSE_MS: u64 = 60000;

/// `ms`, but at most a minute.
pub open spec fn capped(ms: u64) -> u64 {
    if ms < 60000 {
        ms
    } else {
        60000
    }
}

/// A recorded pause.
pub open spec fn delay_step(ms: u64) -> TaskStep {
    TaskStep { action: TaskActionType::Delay, param: capped(ms), extra: 0 }
}

/// A recorded relative move taking `ms` (at most a minute).
pub open spec fn rel_move_step(dx: i32, dy: i32, ms: u64) -> TaskStep {
    TaskStep { action: TaskActionType::MouseMove, param: move_param(dx, dy), extra: (capped(ms) + 0x100_0000) as u32 }
}

fn capped_exec(ms: u64) -> (r: u64)
    ensures
        r == capped(ms),
{
    if ms < 60000 {
        ms
    } else {
        60000
    }
}

fn rel_extra(ms: u64) -> (e: u32)
    ensures
        e == (capped(ms) + 0x100_0000) as u32,
{
    let c = capped_exec(ms) as u32;
    let e = c | RELATIVE_FLAG;
    assert(e == c + 0x100_0000) by (bit_vector)
        requires
            c <= 60000,
            e == c | 0x0100_0000u32,
    ;
    e
}

/// The steps a mouse event adds after a pause of `elapsed` ms, with the
/// last known pointer position `last`.
pub open spec fn event_steps(last: (i32, i32), ev: RecEvent, elapsed: u64) -> Seq<TaskStep> {
    match ev {
        RecEvent::MouseDown { button, x, y } => {
            let lead = if (x, y) != last {
                if elapsed >= 30 {
                    seq![rel_move_step((x - last.0) as i32, (y - last.1) as i32, elapsed)]
                } else {
                    Seq::empty()
                }
            } else if elapsed >= 30 {
                seq![delay_step(elapsed)]
            } else {
                Seq::empty()
            };
            lead.push(TaskStep { action: TaskActionType::MouseClick, param: ((button as i64 as u64) % 256) as u64, extra: 0 })
        },
        RecEvent::MouseMove { dx, dy } => seq![rel_move_step(dx, dy, elapsed)],
        RecEvent::Wheel { up } => {
            let lead = if elapsed >= 30 {
                seq![delay_step(elapsed)]
            } else {
                Seq::empty()
            };
            lead.push(TaskStep { action: TaskActionType::MouseWheel, param: if up { 1 } else { 0 }, extra: 0 })
        },
    }
}

/// The pointer position known after a mouse event.
pub open spec fn event_pos(last: (i32, i32), ev: RecEvent) -> (i32, i32) {
    match ev {
        RecEvent::MouseDown { button, x, y } => (x, y),
        RecEvent::MouseMove { dx, dy } => (last.0.wrapping_add(dx), last.1.wrapping_add(dy)),
        RecEvent::Wheel { up } => last,
    }
}

/// Whether an event can be recorded without overflow: a button press's
/// offset from the last position fits in an `i32`.
pub open spec fn event_fits(last: (i32, i32), ev: RecEvent) -> bool {
    match ev {
        RecEvent::MouseDown { button, x, y } => i32::MIN <= x - last.0 <= i32::MAX && i32::MIN <= y - last.1 <= i32::MAX,
        _ => true,
    }
}

/// The state the recorder keeps between events and snapshots.
pub struct Recorder {
    /// Clock reading of the last recorded input.
    pub last_time_ms: u64,
    /// Last known pointer position.
    pub last_pos: (i32, i32),
    /// For each virtual key, bit 0x80 set when it was down at the last snapshot.
    pub prev_keys: Vec<u8>,
    /// For each virtual key, the clock reading when it went down.
    pub key_down_ms: Vec<Option<u64>>,
}

/// The key-poll state: tasks so far, previous key bits, press times, the
/// time of the last recorded input and whether anything was recorded.
pub struct PollState {
    pub tasks: Seq<TaskStep>,
    pub prev: Seq<u8>,
    pub key_down: Seq<Option<u64>>,
    pub last_time: u64,
    pub dirty: bool,
}

/// The modifier keys held in a snapshot: (ctrl, shift, alt, win).
pub open spec fn modifiers(down: Seq<bool>) -> (bool, bool, bool, bool) {
    (
        down[0xA2] || down[0xA3] || down[0x11],
        down[0xA0] || down[0xA1] || down[0x10],
        down[0xA4] || down[0xA5] || down[0x12],
        down[0x5B] || down[0x5C],
    )
}

/// The keys of a recorded combo: the held modifiers (left variants) in the
/// order ctrl, shift, alt, win, then the pressed key.
pub open spec fn combo_for(m: (bool, bool, bool, bool), vk: int) -> Seq<u8> {
    let a = if m.0 {
        seq![0xA2u8]
    } else {
        Seq::empty()
    };
    let b = if m.1 {
        a.push(0xA0u8)
    } else {
        a
    };
    let c = if m.2 {
        b.push(0xA4u8)
    } else {
        b
    };
    let d = if m.3 {
        c.push(0x5Bu8)
    } else {
        c
    };
    d.push(vk as u8)
}

/// The 64-bit word packing keys one per byte, lowest first.
pub open spec fn combo_word(keys: Seq<u8>) -> u64
    decreases keys.len(),
{
    if keys.len() == 0 {
        0
    } else {
        (keys[0] as int + 256 * combo_word(keys.drop_first()) as int) as u64
    }
}

/// The steps that turn a recorded combo into an explicit long press:
/// each key down, the hold, then the main key up and the others up in
/// reverse order.
pub open spec fn combo_hold_steps(keys: Seq<u8>, hold: u64, vk: int) -> Seq<TaskStep> {
    let downs = Seq::new(keys.len(), |i: int| TaskStep { action: TaskActionType::KeyDown, param: keys[i] as u64, extra: 0 });
    let main: u8 = if keys.len() > 0 {
        keys.last()
    } else {
        vk as u8
    };
    let rest = if keys.len() > 0 {
        keys.drop_last()
    } else {
        keys
    };
    let ups = Seq::new(rest.len(), |i: int| TaskStep { action: TaskActionType::KeyUp, param: rest[rest.len() - 1 - i] as u64, extra: 0 });
    downs + seq![delay_step(hold), TaskStep { action: TaskActionType::KeyUp, param: main as u64, extra: 0 }] + ups
}

/// The task list after key `vk` was released after `hold` ms: a matching
/// key press gets the hold time, a combo becomes an explicit long press;
/// short holds change nothing.
pub open spec fn release_tasks(tasks: Seq<TaskStep>, hold: u64, vk: int) -> Seq<TaskStep> {
    if hold >= 300 && tasks.len() > 0 {
        let last = tasks.last();
        if last.action == TaskActionType::KeyPress && last.param % 0x10000 == vk {
            tasks.update(
                tasks.len() - 1,
                TaskStep { action: last.action, param: last.param | (((hold % 0x10000) as u64) << 16u64), extra: last.extra },
            )
        } else if last.action == TaskActionType::ComboKey {
            tasks.drop_last() + combo_hold_steps(combo_keys_of(last.param, last.extra), hold, vk)
        } else {
            tasks
        }
    } else {
        tasks
    }
}

/// One key of a keyboard snapshot.
pub open spec fn poll_key(st: PollState, vk: int, down: Seq<bool>, now: u64, hotkey: i32, prev_elapsed: u64) -> PollState {
    let was = st.prev[vk] & 0x80 != 0;
    let is_down = down[vk];
    let m = modifiers(down);
    let ignored = is_mouse_vk_spec(vk as i32) || vk == hotkey;
    let st1 = if !was && is_down {
        let kd = st.key_down.update(vk, Some(now));
        if ignored {
            PollState { tasks: st.tasks, prev: st.prev, key_down: kd, last_time: st.last_time, dirty: st.dirty }
        } else {
            let t1 = if prev_elapsed >= 30 {
                st.tasks.push(delay_step(prev_elapsed))
            } else {
                st.tasks
            };
            let t2 = if m.0 || m.1 || m.2 || m.3 {
                let keys = combo_for(m, vk);
                t1.push(TaskStep { action: TaskActionType::ComboKey, param: combo_word(keys), extra: keys.len() as u32 })
            } else {
                t1.push(TaskStep { action: TaskActionType::KeyPress, param: (vk % 0x10000) as u64, extra: 0 })
            };
            PollState { tasks: t2, prev: st.prev, key_down: kd, last_time: now, dirty: true }
        }
    } else {
        st
    };
    let st2 = if was && !is_down {
        let hold: u64 = match st1.key_down[vk] {
            Some(t) => if now >= t {
                (now - t) as u64
            } else {
                0
            },
            None => 0,
        };
        let tasks = if ignored {
            st1.tasks
        } else {
            release_tasks(st1.tasks, hold, vk)
        };
        PollState { tasks, prev: st1.prev, key_down: st1.key_down.update(vk, None), last_time: st1.last_time, dirty: st1.dirty }
    } else {
        st1
    };
    let bit: u8 = if is_down {
        st2.prev[vk] | 0x80
    } else {
        st2.prev[vk] & 0x7F
    };
    PollState { tasks: st2.tasks, prev: st2.prev.update(vk, bit), key_down: st2.key_down, last_time: st2.last_time, dirty: st2.dirty }
}

/// Keys `0..n` of a keyboard snapshot, in order.
pub open spec fn poll_keys(st: PollState, n: int, down: Seq<bool>, now: u64, hotkey: i32, prev_elapsed: u64) -> PollState
    decreases n,
{
    if n <= 0 {
        st
    } else {
        poll_key(poll_keys(st, n - 1, down, now, hotkey, prev_elapsed), n - 1, down, now, hotkey, prev_elapsed)
    }
}

proof fn lemma_poll_lengths(st: PollState, n: int, down: Seq<bool>, now: u64, hotkey: i32, prev_elapsed: u64)
    requires
        0 <= n <= 256,
        st.prev.len() == 256,
        st.key_down.len() == 256,
        down.len() == 256,
    ensures
        poll_keys(st, n, down, now, hotkey, prev_elapsed).prev.len() == 256,
        poll_keys(st, n, down, now, hotkey, prev_elapsed).key_down.len() == 256,
    decreases n,
{
    if n > 0 {
        lemma_poll_lengths(st, n - 1, down, now, hotkey, prev_elapsed);
    }
}

impl Recorder {
    /// Well formed: one entry per virtual key.
    pub open spec fn wf(&self) -> bool {
        self.prev_keys@.len() == 256 && self.key_down_ms@.len() == 256
    }

    /// Whether `ev` can be recorded now (see [`event_fits`]).
    pub fn fits(&self, ev: RecEvent) -> (r: bool)
        ensures
            r == event_fits(self.last_pos, ev),
    {
        match ev {
            RecEvent::MouseDown { button: _, x, y } => {
                let dx = x as i64 - self.last_pos.0 as i64;
                let dy = y as i64 - self.last_pos.1 as i64;
                i32::MIN as i64 <= dx && dx <= i32::MAX as i64 && i32::MIN as i64 <= dy && dy <= i32::MAX as i64
            },
            _ => true,
        }
    }

    /// The poll state of this recorder with a task list.
    pub open spec fn poll_view(&self, tasks: Seq<TaskStep>, dirty: bool) -> PollState {
        PollState { tasks, prev: self.prev_keys@, key_down: self.key_down_ms@, last_time: self.last_time_ms, dirty }
    }

    /// A recorder starting at clock reading `now_ms` with the pointer at
    /// `(x, y)` and the keys that are down in `down` marked as held (so that
    /// keys already held are not recorded as presses).
    pub fn start(now_ms: u64, x: i32, y: i32, down: &[bool]) -> (r: Recorder)
        requires
            down@.len() == 256,
        ensures
            r.wf(),
            r.last_time_ms == now_ms,
            r.last_pos == (x, y),
            forall|vk: int| 0 <= vk < 256 ==> r.prev_keys@[vk] == if down@[vk] { 0x80u8 } else { 0u8 },
            forall|vk: int| 0 <= vk < 256 ==> r.key_down_ms@[vk] is None,
    {
        let mut prev: Vec<u8> = Vec::new();
        let mut kd: Vec<Option<u64>> = Vec::new();
        let mut vk: usize = 0;
        while vk < 256
            invariant
                down@.len() == 256,
                0 <= vk <= 256,
                prev@.len() == vk,
                kd@.len() == vk,
                forall|j: int| 0 <= j < vk ==> prev@[j] == if down@[j] { 0x80u8 } else { 0u8 },
                forall|j: int| 0 <= j < vk ==> kd@[j] is None,
            decreases 256 - vk,
        {
            prev.push(if down[vk] {
                0x80
            } else {
                0
            });
            kd.push(None);
            vk = vk + 1;
        }
        Recorder { last_time_ms: now_ms, last_pos: (x, y), prev_keys: prev, key_down_ms: kd }
    }

    /// Records one mouse event read at clock reading `now_ms`.
    pub fn on_event(&mut self, tasks: &mut Vec<TaskStep>, ev: RecEvent, now_ms: u64)
        requires
            event_fits(old(self).last_pos, ev),
        ensures
            final(tasks)@ == old(tasks)@ + event_steps(
                old(self).last_pos,
                ev,
                if now_ms >= old(self).last_time_ms {
                    (now_ms - old(self).last_time_ms) as u64
                } else {
                    0
                },
            ),
            final(self).last_pos == event_pos(old(self).last_pos, ev),
            final(self).last_time_ms == now_ms,
            final(self).prev_keys == old(self).prev_keys,
            final(self).key_down_ms == old(self).key_down_ms,
    {
        let elapsed = now_ms.saturating_sub(self.last_time_ms);
        self.last_time_ms = now_ms;
        let ghost t0 = tasks@;
        match ev {
            RecEvent::MouseDown { button, x, y } => {
                if x != self.last_pos.0 || y != self.last_pos.1 {
                    let dx = x - self.last_pos.0;
                    let dy = y - self.last_pos.1;
                    if elapsed >= 30 {
                        tasks.push(TaskStep { action: TaskActionType::MouseMove, param: pack_move(dx, dy), extra: rel_extra(elapsed) });
                    }
                    self.last_pos = (x, y);
                } else if elapsed >= 30 {
                    tasks.push(TaskStep { action: TaskActionType::Delay, param: capped_exec(elapsed), extra: 0 });
                }
                let b = (button as u64) & 0xFF;
                assert(b == (button as i64 as u64) % 256) by (bit_vector)
                    requires
                        b == (button as u64) & 0xFF,
                ;
                tasks.push(TaskStep { action: TaskActionType::MouseClick, param: b, extra: 0 });
            },
            RecEvent::MouseMove { dx, dy } => {
                self.last_pos = (self.last_pos.0.wrapping_add(dx), self.last_pos.1.wrapping_add(dy));
                tasks.push(TaskStep { action: TaskActionType::MouseMove, param: pack_move(dx, dy), extra: rel_extra(elapsed) });
            },
            RecEvent::Wheel { up } => {
                if elapsed >= 30 {
                    tasks.push(TaskStep { action: TaskActionType::Delay, param: capped_exec(elapsed), extra: 0 });
                }
                tasks.push(TaskStep { action: TaskActionType::MouseWheel, param: if up {
                    1
                } else {
                    0
                }, extra: 0 });
            },
        }
        assert(tasks@ =~= t0 + event_steps(
            old(self).last_pos,
            ev,
            if now_ms >= old(self).last_time_ms {
                (now_ms - old(self).last_time_ms) as u64
            } else {
                0
            },
        ));
    }

    /// Records a keyboard snapshot read at clock reading `now_ms`: `down[vk]`
    /// tells whether key `vk` is down. Returns whether a key press was
    /// recorded.
    pub fn on_keys(&mut self, tasks: &mut Vec<TaskStep>, down: &[bool], now_ms: u64, hotkey: i32) -> (dirty: bool)
        requires
            old(self).wf(),
            down@.len() == 256,
        ensures
            final(self).wf(),
            final(self).last_pos == old(self).last_pos,
            ({
                let prev_elapsed: u64 = if now_ms >= old(self).last_time_ms {
                    (now_ms - old(self).last_time_ms) as u64
                } else {
                    0
                };
                let st = poll_keys(old(self).poll_view(old(tasks)@, false), 256, down@, now_ms, hotkey, prev_elapsed);
                &&& final(tasks)@ == st.tasks
                &&& final(self).prev_keys@ == st.prev
                &&& final(self).key_down_ms@ == st.key_down
                &&& final(self).last_time_ms == st.last_time
                &&& dirty == st.dirty
            }),
    {
        let prev_elapsed = now_ms.saturating_sub(self.last_time_ms);
        let ctrl = down[0xA2] || down[0xA3] || down[0x11];
        let shift = down[0xA0] || down[0xA1] || down[0x10];
        let alt = down[0xA4] || down[0xA5] || down[0x12];
        let win = down[0x5B] || down[0x5C];
        let has_mod = ctrl || shift || alt || win;
        let ghost st0 = self.poll_view(tasks@, false);
        let mut dirty = false;
        let mut vk: usize = 0;
        while vk < 256
            invariant
                self.wf(),
                down@.len() == 256,
                0 <= vk <= 256,
                self.last_pos == old(self).last_pos,
                (ctrl, shift, alt, win) == modifiers(down@),
                has_mod == (ctrl || shift || alt || win),
                st0 == old(self).poll_view(old(tasks)@, false),
                st0.prev.len() == 256,
                st0.key_down.len() == 256,
                prev_elapsed == if now_ms >= old(self).last_time_ms {
                    (now_ms - old(self).last_time_ms) as u64
                } else {
                    0
                },
                ({
                    let st = poll_keys(st0, vk as int, down@, now_ms, hotkey, prev_elapsed);
                    &&& tasks@ == st.tasks
                    &&& self.prev_keys@ == st.prev
                    &&& self.key_down_ms@ == st.key_down
                    &&& self.last_time_ms == st.last_time
                    &&& dirty == st.dirty
                }),
            decreases 256 - vk,
        {
            let ghost before = poll_keys(st0, vk as int, down@, now_ms, hotkey, prev_elapsed);
            let ghost target = poll_key(before, vk as int, down@, now_ms, hotkey, prev_elapsed);
            let was = self.prev_keys[vk] & 0x80 != 0;
            let is_down = down[vk];
            let v = vk as i32;
            let ignored = is_mouse_vk(v) || v == hotkey;
            if !was && is_down {
                self.key_down_ms.set(vk, Some(now_ms));
                if !ignored {
                    if prev_elapsed >= 30 {
                        tasks.push(TaskStep { action: TaskActionType::Delay, param: capped_exec(prev_elapsed), extra: 0 });
                    }
                    self.last_time_ms = now_ms;
                    if has_mod {
                        let mut combo: Vec<u8> = Vec::new();
                        if ctrl {
                            combo.push(0xA2);
                        }
                        if shift {
                            combo.push(0xA0);
                        }
                        if alt {
                            combo.push(0xA4);
                        }
                        if win {
                            combo.push(0x5B);
                        }
                        combo.push(vk as u8);
                        assert(combo@ =~= combo_for(modifiers(down@), vk as int));
                        let p = pack_combo(combo.as_slice());
                        proof {
                            lemma_combo_word(combo@, p);
                        }
                        tasks.push(TaskStep { action: TaskActionType::ComboKey, param: p, extra: combo.len() as u32 });
                    } else {
                        tasks.push(TaskStep { action: TaskActionType::KeyPress, param: (vk as u64) & 0xFFFF, extra: 0 });
                        assert((vk as u64) & 0xFFFF == vk as u64) by (bit_vector)
                            requires
                                vk < 256,
                        ;
                    }
                    dirty = true;
                }
            }
            if was && !is_down {
                if !ignored {
                    let hold: u64 = match self.key_down_ms[vk] {
                        Some(t0) => now_ms.saturating_sub(t0),
                        None => 0,
                    };
                    release_into(tasks, hold, vk);
                }
                self.key_down_ms.set(vk, None);
            }
            let old_bit = self.prev_keys[vk];
            if is_down {
                self.prev_keys.set(vk, old_bit | 0x80);
            } else {
                self.prev_keys.set(vk, old_bit & 0x7F);
            }
            proof {
                lemma_poll_lengths(st0, vk as int, down@, now_ms, hotkey, prev_elapsed);
                assert(tasks@ =~= target.tasks);
                assert(self.prev_keys@ =~= target.prev);
                assert(self.key_down_ms@ =~= target.key_down);
            }
            vk = vk + 1;
        }
        dirty
    }
}

proof fn lemma_combo_word(keys: Seq<u8>, p: u64)
    requires
        keys.len() <= 8,
        forall|i: int| 0 <= i < keys.len() ==> crate::constants::byte_of(p, i) == keys[i],
        forall|i: int| keys.len() <= i < 8 ==> crate::constants::byte_of(p, i) == 0,
    ensures
        p == combo_word(keys),
    decreases keys.len(),
{
    if keys.len() == 0 {
        assert forall|i: int| 0 <= i < 8 implies crate::constants::byte_of(p, i) == 0 by {}
        lemma_bytes_zero(p);
    } else {
        let q = p >> 8u64;
        assert forall|i: int| 0 <= i < keys.len() - 1 implies crate::constants::byte_of(q, i) == keys.drop_first()[i] by {
            lemma_byte_shift(p, q, i);
            assert(crate::constants::byte_of(p, i + 1) == keys[i + 1]);
        }
        assert forall|i: int| keys.len() - 1 <= i < 8 implies crate::constants::byte_of(q, i) == 0 by {
            lemma_byte_shift(p, q, i);
            if i + 1 < 8 {
                assert(crate::constants::byte_of(p, i + 1) == 0);
            }
        }
        lemma_combo_word(keys.drop_first(), q);
        assert(crate::constants::byte_of(p, 0) == keys[0]);
        lemma_split_low_byte(p, q);
    }
}

proof fn lemma_byte_shift(p: u64, q: u64, i: int)
    requires
        q == p >> 8u64,
        0 <= i < 8,
    ensures
        crate::constants::byte_of(q, i) == if i + 1 < 8 {
            crate::constants::byte_of(p, i + 1)
        } else {
            0
        },
{
    let ii = i as u64;
    assert(((p >> 8u64) >> (8 * ii)) & 0xFF == if ii + 1 < 8 {
        (p >> (8 * (ii + 1))) & 0xFF
    } else {
        0
    }) by (bit_vector)
        requires
            ii < 8,
    ;
}

proof fn lemma_split_low_byte(p: u64, q: u64)
    requires
        q == p >> 8u64,
    ensures
        p as int == crate::constants::byte_of(p, 0) as int + 256 * q as int,
{
    assert(p == (p & 0xFF) + 256 * (p >> 8u64)) by (bit_vector);
    assert(crate::constants::byte_of(p, 0) == p & 0xFF) by {
        assert((p >> 0u64) & 0xFF == p & 0xFF) by (bit_vector);
    }
}

proof fn lemma_bytes_zero(p: u64)
    requires
        forall|i: int| 0 <= i < 8 ==> crate::constants::byte_of(p, i) == 0,
    ensures
        p == 0,
{
    assert(crate::constants::byte_of(p, 0) == 0);
    assert(crate::constants::byte_of(p, 1) == 0);
    assert(crate::constants::byte_of(p, 2) == 0);
    assert(crate::constants::byte_of(p, 3) == 0);
    assert(crate::constants::byte_of(p, 4) == 0);
    assert(crate::constants::byte_of(p, 5) == 0);
    assert(crate::constants::byte_of(p, 6) == 0);
    assert(crate::constants::byte_of(p, 7) == 0);
    assert(p == 0) by (bit_vector)
        requires
            (p >> 0u64) & 0xFF == 0,
            (p >> 8u64) & 0xFF == 0,
            (p >> 16u64) & 0xFF == 0,
            (p >> 24u64) & 0xFF == 0,
            (p >> 32u64) & 0xFF == 0,
            (p >> 40u64) & 0xFF == 0,
            (p >> 48u64) & 0xFF == 0,
            (p >> 56u64) & 0xFF == 0,
    ;
}

/// Applies a key release after `hold` ms to the task list.
fn release_into(tasks: &mut Vec<TaskStep>, hold: u64, vk: usize)
    requires
        vk < 256,
    ensures
        final(tasks)@ == release_tasks(old(tasks)@, hold, vk as int),
{
    if hold < LONG_PRESS_MS || tasks.len() == 0 {
        return;
    }
    let n = tasks.len();
    let last = tasks[n - 1];
    let lp = last.param;
    proof {
        lemma_param_fields(lp);
    }
    if last.action == TaskActionType::KeyPress && (last.param & 0xFFFF) == vk as u64 {
        let np = last.param | ((hold & 0xFFFF) << 16u64);
        proof {
            lemma_param_fields(hold);
        }
        tasks.set(n - 1, TaskStep { action: last.action, param: np, extra: last.extra });
        assert(tasks@ =~= release_tasks(old(tasks)@, hold, vk as int));
    } else if last.action == TaskActionType::ComboKey {
        let ghost prefix = tasks@.drop_last();
        tasks.pop();
        let keys = unpack_combo(last.param, last.extra);
        assert(keys@ =~= combo_keys_of(last.param, last.extra));
        let mut i: usize = 0;
        while i < keys.len()
            invariant
                0 <= i <= keys@.len(),
                tasks@ == prefix + Seq::new(i as nat, |j: int| TaskStep { action: TaskActionType::KeyDown, param: keys@[j] as u64, extra: 0 }),
            decreases keys@.len() - i,
        {
            tasks.push(TaskStep { action: TaskActionType::KeyDown, param: keys[i] as u64, extra: 0 });
            i = i + 1;
            assert(tasks@ =~= prefix + Seq::new(i as nat, |j: int| TaskStep { action: TaskActionType::KeyDown, param: keys@[j] as u64, extra: 0 }));
        }
        tasks.push(TaskStep { action: TaskActionType::Delay, param: capped_exec(hold), extra: 0 });
        let main: u8 = if keys.len() > 0 {
            keys[keys.len() - 1]
        } else {
            vk as u8
        };
        tasks.push(TaskStep { action: TaskActionType::KeyUp, param: main as u64, extra: 0 });
        let ghost mid = tasks@;
        let ghost rest = if keys@.len() > 0 {
            keys@.drop_last()
        } else {
            keys@
        };
        let mut k: usize = if keys.len() > 0 {
            keys.len() - 1
        } else {
            0
        };
        while k > 0
            invariant
                rest.len() == if keys@.len() > 0 {
                    keys@.len() - 1
                } else {
                    0
                },
                rest == (if keys@.len() > 0 { keys@.drop_last() } else { keys@ }),
                0 <= k <= rest.len(),
                tasks@ == mid + Seq::new((rest.len() - k) as nat, |j: int| TaskStep { action: TaskActionType::KeyUp, param: rest[rest.len() - 1 - j] as u64, extra: 0 }),
            decreases k,
        {
            k = k - 1;
            tasks.push(TaskStep { action: TaskActionType::KeyUp, param: keys[k] as u64, extra: 0 });
            assert(rest[k as int] == keys@[k as int]);
            assert(tasks@ =~= mid + Seq::new((rest.len() - k) as nat, |j: int| TaskStep { action: TaskActionType::KeyUp, param: rest[rest.len() - 1 - j] as u64, extra: 0 }));
        }
        assert(tasks@ =~= release_tasks(old(tasks)@, hold, vk as int));
    }
}

// ---------------------------------------------------------------------
// Start step and move compression
// ---------------------------------------------------------------------

/// The step a recording starts with: an absolute move to where the pointer is.
pub fn recording_start_step(x: i32, y: i32) -> (s: TaskStep)
    ensures
        s == (TaskStep { action: TaskActionType::MouseMove, param: move_param(x, y), extra: 0 }),
{
    TaskStep { action: TaskActionType::MouseMove, param: pack_move(x, y), extra: 0 }
}

/// Whether two steps are consecutive moves of the same mode (both absolute
/// or both relative), which compression merges.
pub open spec fn mergeable(a: TaskStep, b: TaskStep) -> bool {
    a.action == TaskActionType::MouseMove && b.action == TaskActionType::MouseMove
        && (a.extra & 0x0100_0000) == (b.extra & 0x0100_0000)
}

/// The duration part of a move's extra word: everything but the relative flag.
pub open spec fn move_duration(e: u32) -> u64 {
    (e & 0xFEFF_FFFF) as u64
}

/// Two mergeable moves as one: the offsets added (wrapping), the longer
/// duration, the first move's mode.
pub open spec fn merge(a: TaskStep, b: TaskStep) -> TaskStep {
    let ax = (a.param % 0x1_0000_0000) as u32 as i32;
    let ay = (a.param / 0x1_0000_0000) as u32 as i32;
    let bx = (b.param % 0x1_0000_0000) as u32 as i32;
    let by = (b.param / 0x1_0000_0000) as u32 as i32;
    let d = if move_duration(a.extra) >= move_duration(b.extra) {
        move_duration(a.extra)
    } else {
        move_duration(b.extra)
    };
    TaskStep {
        action: TaskActionType::MouseMove,
        param: move_param(ax.wrapping_add(bx), ay.wrapping_add(by)),
        extra: (d as u32) | (a.extra & 0x0100_0000),
    }
}

/// A task list with every run of mergeable moves merged, left to right.
pub open spec fn compress_spec(s: Seq<TaskStep>) -> Seq<TaskStep>
    decreases s.len(),
{
    if s.len() < 2 {
        s
    } else if mergeable(s[0], s[1]) {
        compress_spec(seq![merge(s[0], s[1])] + s.skip(2))
    } else {
        seq![s[0]] + compress_spec(s.drop_first())
    }
}

/// Merges every run of consecutive same-mode moves: offsets add up, the
/// longest duration stays.
pub fn compress_moves(tasks: &mut Vec<TaskStep>)
    ensures
        final(tasks)@ == compress_spec(old(tasks)@),
{
    let mut i: usize = 0;
    assert(old(tasks)@.skip(0) =~= old(tasks)@);
    while tasks.len() - i > 1
        invariant
            0 <= i <= tasks@.len(),
            tasks@.take(i as int) + compress_spec(tasks@.skip(i as int)) == compress_spec(old(tasks)@),
        decreases tasks@.len() - i, tasks@.len(),
    {
        let a = tasks[i];
        let b = tasks[i + 1];
        let ghost s = tasks@;
        let ghost rest = s.skip(i as int);
        proof {
            assert(rest[0] == a && rest[1] == b);
        }
        if a.action == TaskActionType::MouseMove && b.action == TaskActionType::MouseMove
            && (a.extra & RELATIVE_FLAG) == (b.extra & RELATIVE_FLAG) {
            let (dx, dy) = unpack_move(a.param);
            let (dx2, dy2) = unpack_move(b.param);
            let d1 = (a.extra as u64) & !(RELATIVE_FLAG as u64);
            let d2 = (b.extra as u64) & !(RELATIVE_FLAG as u64);
            let ae = a.extra;
            let be = b.extra;
            assert(d1 == (ae & 0xFEFF_FFFF) as u64 && d2 == (be & 0xFEFF_FFFF) as u64) by (bit_vector)
                requires
                    d1 == (ae as u64) & !(0x0100_0000u32 as u64),
                    d2 == (be as u64) & !(0x0100_0000u32 as u64),
            ;
            let d = if d1 >= d2 {
                d1
            } else {
                d2
            };
            let m = TaskStep {
                action: TaskActionType::MouseMove,
                param: pack_move(dx.wrapping_add(dx2), dy.wrapping_add(dy2)),
                extra: (d as u32) | (a.extra & RELATIVE_FLAG),
            };
            proof {
                assert(dx == (a.param % 0x1_0000_0000) as u32 as i32) by {
                    lemma_i32_bits(dx, 0);
                }
                assert(dy == (a.param / 0x1_0000_0000) as u32 as i32) by {
                    lemma_i32_bits(dy, 0);
                }
                assert(dx2 == (b.param % 0x1_0000_0000) as u32 as i32) by {
                    lemma_i32_bits(dx2, 0);
                }
                assert(dy2 == (b.param / 0x1_0000_0000) as u32 as i32) by {
                    lemma_i32_bits(dy2, 0);
                }
                assert(m == merge(a, b));
            }
            tasks.set(i, m);
            tasks.remove(i + 1);
            proof {
                assert(tasks@.take(i as int) =~= s.take(i as int));
                assert(tasks@.skip(i as int) =~= seq![merge(a, b)] + rest.skip(2));
            }
        } else {
            proof {
                assert(!mergeable(a, b));
                assert(tasks@.take(i + 1) =~= s.take(i as int).push(a));
                assert(rest.drop_first() =~= s.skip(i + 1));
                assert(s.take(i as int) + (seq![a] + compress_spec(rest.drop_first())) =~= s.take(i + 1) + compress_spec(s.skip(i + 1)));
            }
            i = i + 1;
        }
    }
    proof {
        assert(tasks@.take(i as int) + tasks@.skip(i as int) =~= tasks@);
    }
}

/// No two neighbours can be merged.
pub open spec fn fully_merged(s: Seq<TaskStep>) -> bool {
    forall|i: int| 0 <= i < s.len() - 1 ==> !mergeable(#[trigger] s[i], s[i + 1])
}

proof fn lemma_merge_keeps_mode(a: TaskStep, b: TaskStep)
    requires
        mergeable(a, b),
    ensures
        merge(a, b).action == TaskActionType::MouseMove,
        merge(a, b).extra & 0x0100_0000 == a.extra & 0x0100_0000,
{
    let d = if move_duration(a.extra) >= move_duration(b.extra) {
        move_duration(a.extra)
    } else {
        move_duration(b.extra)
    };
    let ae = a.extra;
    let be = b.extra;
    let du = d as u32;
    assert(du & 0x0100_0000 == 0) by (bit_vector)
        requires
            du == (ae & 0xFEFF_FFFF) || du == (be & 0xFEFF_FFFF),
    ;
    assert((du | (ae & 0x0100_0000)) & 0x0100_0000 == ae & 0x0100_0000) by (bit_vector)
        requires
            du & 0x0100_0000 == 0,
    ;
}

proof fn lemma_compress_head(s: Seq<TaskStep>)
    requires
        s.len() > 0,
    ensures
        compress_spec(s).len() > 0,
        compress_spec(s)[0].action == s[0].action,
        s[0].action == TaskActionType::MouseMove ==> compress_spec(s)[0].extra & 0x0100_0000 == s[0].extra
            & 0x0100_0000,
        s[0].action != TaskActionType::MouseMove ==> compress_spec(s)[0] == s[0],
    decreases s.len(),
{
    if s.len() >= 2 {
        if mergeable(s[0], s[1]) {
            lemma_merge_keeps_mode(s[0], s[1]);
            let t = seq![merge(s[0], s[1])] + s.skip(2);
            lemma_compress_head(t);
        }
    }
}

proof fn lemma_compress_fully_merged(s: Seq<TaskStep>)
    ensures
        fully_merged(compress_spec(s)),
    decreases s.len(),
{
    if s.len() >= 2 {
        if mergeable(s[0], s[1]) {
            lemma_compress_fully_merged(seq![merge(s[0], s[1])] + s.skip(2));
        } else {
            let r = s.drop_first();
            lemma_compress_fully_merged(r);
            lemma_compress_head(r);
            let c = seq![s[0]] + compress_spec(r);
            assert forall|i: int| 0 <= i < c.len() - 1 implies !mergeable(#[trigger] c[i], c[i + 1]) by {
                if i > 0 {
                    assert(c[i] == compress_spec(r)[i - 1]);
                    assert(c[i + 1] == compress_spec(r)[i]);
                }
            }
        }
    }
}

proof fn lemma_compress_identity(s: Seq<TaskStep>)
    requires
        fully_merged(s),
    ensures
        compress_spec(s) == s,
    decreases s.len(),
{
    if s.len() >= 2 {
        assert(!mergeable(s[0], s[1]));
        let r = s.drop_first();
        assert forall|i: int| 0 <= i < r.len() - 1 implies !mergeable(#[trigger] r[i], r[i + 1]) by {
            assert(r[i] == s[i + 1]);
            assert(!mergeable(s[i + 1], s[i + 2]));
        }
        lemma_compress_identity(r);
        assert(seq![s[0]] + r =~= s);
    }
}

/// Compressing leaves no mergeable neighbours, so compressing again
/// changes nothing.
pub proof fn lemma_compress_idempotent(s: Seq<TaskStep>)
    ensures
        fully_merged(compress_spec(s)),
        compress_spec(compress_spec(s)) == compress_spec(s),
{
    lemma_compress_fully_merged(s);
    lemma_compress_identity(compress_spec(s));
}

/// Compressing never lengthens a task list, and keeps a list without moves
/// as it is.
pub proof fn lemma_compress_no_moves(s: Seq<TaskStep>)
    requires
        forall|i: int| 0 <= i < s.len() ==> (#[trigger] s[i]).action != TaskActionType::MouseMove,
    ensures
        compress_spec(s) == s,
{
    assert forall|i: int| 0 <= i < s.len() - 1 implies !mergeable(#[trigger] s[i], s[i + 1]) by {}
    lemma_compress_identity(s);
}

// ---------------------------------------------------------------------
// The mouse hook
// ---------------------------------------------------------------------

/// What one low-level mouse hook message leads to: the event to record,
/// the pointer position to remember, and the position of the last recorded
/// move to remember.
#[derive(Clone, Copy, Debug)]
pub struct HookUpdate {
    pub event: Option<RecEvent>,
    pub last_pos: Option<(i32, i32)>,
    pub last_move: Option<(i32, i32)>,
}

/// The button number of a button-down message: 0 left, 1 right, 2 middle,
/// 3 or 4 for the first or other side button (from the high word of the
/// mouse data).
pub open spec fn hook_button(msg: u32, mouse_data: u32) -> i32 {
    if msg == 0x0201 {
        0
    } else if msg == 0x0204 {
        1
    } else if msg == 0x0207 {
        2
    } else if (mouse_data / 0x10000) as u16 == 1 {
        3
    } else {
        4
    }
}

/// Whether a move is far enough from the last recorded one (more than 5
/// pixels, squares summed with the hook's wrap-around arithmetic).
pub open spec fn far_enough(dx: i32, dy: i32) -> bool {
    dx.wrapping_mul(dx).wrapping_add(dy.wrapping_mul(dy)) > 25
}

/// What a mouse hook message leads to. Injected input (bit 0 of `flags`) is
/// ignored. A button press (left, right, middle, side) is recorded with its
/// position; a wheel turn by the sign of the high word of the mouse data
/// (nothing for 0); anything else is a move, recorded as the offset from the
/// last recorded move when that is far enough.
pub open spec fn hook_spec(flags: u32, msg: u32, mouse_data: u32, x: i32, y: i32, last_move: (i32, i32)) -> HookUpdate {
    if flags % 2 == 1 {
        HookUpdate { event: None, last_pos: None, last_move: None }
    } else if msg == 0x0201 || msg == 0x0204 || msg == 0x0207 || msg == 0x020B {
        HookUpdate {
            event: Some(RecEvent::MouseDown { button: hook_button(msg, mouse_data), x, y }),
            last_pos: Some((x, y)),
            last_move: None,
        }
    } else if msg == 0x020A {
        let delta = (mouse_data / 0x10000) as u16 as i16;
        HookUpdate {
            event: if delta != 0 { Some(RecEvent::Wheel { up: delta > 0 }) } else { None },
            last_pos: None,
            last_move: None,
        }
    } else {
        let dx = x.wrapping_sub(last_move.0);
        let dy = y.wrapping_sub(last_move.1);
        if far_enough(dx, dy) {
            HookUpdate { event: Some(RecEvent::MouseMove { dx, dy }), last_pos: Some((x, y)), last_move: Some((x, y)) }
        } else {
            HookUpdate { event: None, last_pos: Some((x, y)), last_move: None }
        }
    }
}

/// What a mouse hook message leads to (see [`hook_spec`]).
pub fn hook_message(flags: u32, msg: u32, mouse_data: u32, x: i32, y: i32, last_move: (i32, i32)) -> (r: HookUpdate)
    ensures
        r == hook_spec(flags, msg, mouse_data, x, y, last_move),
{
    let injected = flags & 1;
    let hi = (mouse_data >> 16u32) as u16;
    assert((injected == 1) == (flags % 2 == 1) && hi == (mouse_data / 0x10000) as u16) by (bit_vector)
        requires
            injected == flags & 1,
            hi == (mouse_data >> 16u32) as u16,
    ;
    if injected == 1 {
        HookUpdate { event: None, last_pos: None, last_move: None }
    } else if msg == 0x0201 || msg == 0x0204 || msg == 0x0207 || msg == 0x020B {
        let button: i32 = if msg == 0x0201 {
            0
        } else if msg == 0x0204 {
            1
        } else if msg == 0x0207 {
            2
        } else if hi == 1 {
            3
        } else {
            4
        };
        HookUpdate { event: Some(RecEvent::MouseDown { button, x, y }), last_pos: Some((x, y)), last_move: None }
    } else if msg == 0x020A {
        let delta = hi as i16;
        HookUpdate {
            event: if delta != 0 {
                Some(RecEvent::Wheel { up: delta > 0 })
            } else {
                None
            },
            last_pos: None,
            last_move: None,
        }
    } else {
        let dx = x.wrapping_sub(last_move.0);
        let dy = y.wrapping_sub(last_move.1);
        if dx.wrapping_mul(dx).wrapping_add(dy.wrapping_mul(dy)) > 25 {
            HookUpdate { event: Some(RecEvent::MouseMove { dx, dy }), last_pos: Some((x, y)), last_move: Some((x, y)) }
        } else {
            HookUpdate { event: None, last_pos: Some((x, y)), last_move: None }
        }
    }
}

/// A recorded wheel turn replays as a wheel turn in the same direction: the
/// event adds one wheel step, up exactly when the wheel turned up, after at
/// most a pause; running that step turns the wheel the recorded way.
pub proof fn lemma_recorded_wheel_replays(last: (i32, i32), up: bool, elapsed: u64, p: Picks)
    ensures
        ({
            let steps = event_steps(last, RecEvent::Wheel { up }, elapsed);
            let s = steps.last();
            &&& 1 <= steps.len() <= 2
            &&& s.action == TaskActionType::MouseWheel
            &&& (s.param != 0) == up
            &&& plan_spec(s, p).1[0] == (Command::Wheel { up })
            &&& forall|i: int| 0 <= i < steps.len() - 1 ==> (#[trigger] steps[i]).action == TaskActionType::Delay
        }),
{
}

/// A recorded button press replays as a click of the same button: the
/// event adds one click step, after at most a move or a pause, holding the
/// button's number; running it presses that button first.
pub proof fn lemma_recorded_click_replays(last: (i32, i32), button: i32, x: i32, y: i32, elapsed: u64, p: Picks)
    requires
        0 <= button < 256,
    ensures
        ({
            let steps = event_steps(last, RecEvent::MouseDown { button, x, y }, elapsed);
            let s = steps.last();
            &&& 1 <= steps.len() <= 2
            &&& s.action == TaskActionType::MouseClick
            &&& s.param == button as u64
            &&& s.extra == 0
            &&& plan_spec(s, p).1[0] == (Command::MouseButton { flags: crate::run_laws::press_flag(button as int) })
        }),
{
}

} // verus!
