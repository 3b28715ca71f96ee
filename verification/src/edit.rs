//! Editing and adding steps: the forms of the edit and add dialogs, what
//! an edited step's form starts with, and what confirming a form does to
//! the step and to the stored messages and images.
//!
//! A timed move's duration is typed in seconds and turned into
//! milliseconds by a floating-point product; the dialog hands in the
//! result. The bytes of a newly chosen image file are read by the dialog
//! too.

use vstd::prelude::*;
use crate::config::{
    delete_msg, lemma_next_ids, msg_key, next_image_id, next_msg_id, save_image, save_image_spec, save_msg,
    save_msg_spec, save_tasks,
};
use crate::constants::{
    lemma_extra_fields, lemma_i32_bits, lemma_param_fields,
    TaskActionType, TaskStep, combo_param, combo_preset, move_param, mouse_move_preset, pack_combo, pack_image_match,
    pack_move, spec_combo_keys, spec_move_preset, unpack_image_match, unpack_move, COMBO_PRESET_COUNT,
    MOVE_PRESET_COUNT, RELATIVE_FLAG, WAITINPUT_COPY, WAITINPUT_IGNORE_FAIL, WAITINPUT_REGEX, WAITKEY_POPUP,
    WAITKEY_TERMINATE,
};
use crate::store::{ChangeView, ConfigStore, StoreView};
use crate::runner::{plan_spec, Command, Picks, StepKind};
use crate::taskcodec::encode_spec;
use crate::tasklist::drop_msg;
use crate::text::{char_len, parse_i32, parse_i32_spec, parse_u32, parse_u64, parse_u8, parse_unsigned};

verus! {

/// The form of the edit dialog, one variant per kind of step (`Closed`
/// while the dialog is not open).
#[derive(Clone)]
#[allow(inconsistent_fields)]
pub enum EditState {
    Closed,
    Delay { ms_str: String },
    Click {
        button: i32,
        hold_ms: u64,
        hold_str: String,
        action_type: TaskActionType,
        jitter: u32,
        jitter_str: String,
    },
    Key { vk: i32, hold_ms: u64, hold_str: String, recording: bool, action_type: TaskActionType },
    Wheel { up: bool },
    Move {
        preset: usize,
        secs_str: String,
        custom_x: String,
        custom_y: String,
        window_title: String,
        is_relative: bool,
    },
    ImageMatch {
        image_id: u32,
        new_path: String,
        new_thumbnail: Option<Vec<u8>>,
        full_image: Option<Vec<u8>>,
        show_preview: bool,
        preview_w: u32,
        preview_h: u32,
        confidence_str: String,
        fail_msg: String,
        move_mouse: bool,
        ignore_failure: bool,
        window_title: String,
    },
    Notify { msg: String },
    LostFocus,
    RandomDelay { min_str: String, max_str: String },
    ComboKey { preset: Option<usize> },
    WaitUntil { hour_str: String, minute_str: String },
    CopyText { msg: String },
    Comment { msg: String, count_str: String },
    WaitKey { vk: i32, recording: bool, terminate: bool, popup: bool },
    WaitInput { msg: String, copy_input: bool, ignore_fail: bool, use_regex: bool },
    ShowWindow,
    HideWindow,
    OpenProgram { msg: String },
}

/// The form of the add dialog: the kind picker, then one variant per kind
/// of step that needs settings.
#[derive(Clone)]
#[allow(inconsistent_fields)]
pub enum AddState {
    Closed,
    PickType,
    ConfigDelay { ms_str: String },
    ConfigClick { button: i32, hold_ms: u64, hold_str: String, action_type: TaskActionType, jitter_str: String },
    ConfigKey { vk: i32, hold_ms: u64, hold_str: String, recording: bool, action_type: TaskActionType },
    ConfigWheel { up: bool },
    ConfigMove {
        preset: usize,
        secs_str: String,
        custom_x: String,
        custom_y: String,
        window_title: String,
        is_relative: bool,
    },
    ConfigImageMatch {
        path: String,
        confidence_str: String,
        fail_msg: String,
        move_mouse: bool,
        ignore_failure: bool,
        window_title: String,
        thumbnail: Option<Vec<u8>>,
        full_image: Option<Vec<u8>>,
        show_preview: bool,
        preview_w: u32,
        preview_h: u32,
    },
    ConfigNotify { msg: String },
    ConfigRandomDelay { min_str: String, max_str: String },
    ConfigComboKey { preset: usize },
    ConfigWaitUntil { hour_str: String, minute_str: String },
    ConfigCopyText { msg: String },
    ConfigComment { msg: String, count_str: String },
    ConfigWaitKey { vk: i32, recording: bool, terminate: bool, popup: bool },
    ConfigWaitInput { msg: String, copy_input: bool, ignore_fail: bool, use_regex: bool },
    ConfigOpenProgram { msg: String },
}

// ---------------------------------------------------------------------
// Reading the fields of a form
// ---------------------------------------------------------------------

/// A number typed in a field, or `default` when it does not parse.
pub open spec fn parsed_or(s: Seq<char>, max: nat, default: nat) -> nat {
    match parse_unsigned(s, max) {
        Some(n) => n,
        None => default,
    }
}

/// A delay in ms kept between 1 ms and a minute.
pub open spec fn clamp_delay(n: nat) -> u64 {
    if n < 1 {
        1
    } else if n > 60000 {
        60000
    } else {
        n as u64
    }
}

/// A signed coordinate typed in a field, or 0.
pub open spec fn parsed_i32_or_zero(s: Seq<char>) -> i32 {
    match parse_i32_spec(s) {
        Some(n) => n as i32,
        None => 0,
    }
}

fn delay_field(s: &str, default: u64) -> (r: u64)
    requires
        default <= 60000,
    ensures
        r == clamp_delay(parsed_or(s@, u64::MAX as nat, default as nat)),
{
    let n = match parse_u64(s) {
        Some(n) => n,
        None => default,
    };
    if n < 1 {
        1
    } else if n > 60000 {
        60000
    } else {
        n
    }
}

fn u32_field(s: &str, default: u32) -> (r: u32)
    ensures
        r == parsed_or(s@, u32::MAX as nat, default as nat),
{
    match parse_u32(s) {
        Some(n) => n,
        None => default,
    }
}

fn i32_field(s: &str) -> (r: i32)
    ensures
        r == parsed_i32_or_zero(s@),
{
    match parse_i32(s) {
        Some(n) => n,
        None => 0,
    }
}

/// The store after saving `text` as a message when it is not empty, and
/// the message's id (0 for an empty text).
pub open spec fn save_if_text(v: StoreView, text: Seq<char>) -> (StoreView, u64) {
    if text.len() == 0 {
        (v, 0)
    } else {
        save_msg_spec(v, text)
    }
}

fn save_text(store: &mut ConfigStore, text: &str) -> (id: u64)
    requires
        next_msg_id(old(store)@) < u64::MAX,
    ensures
        final(store)@ == save_if_text(old(store)@, text@).0,
        id == save_if_text(old(store)@, text@).1,
        final(store).logged_since(*old(store)),
{
    if char_len(text) == 0 {
        proof {
            ConfigStore::lemma_logged_refl(*store);
        }
        0
    } else {
        let id = save_msg(store, text);
        id
    }
}

fn drop_message(store: &mut ConfigStore, id: u64)
    ensures
        final(store)@ == drop_msg(old(store)@, id),
        final(store).logged_since(*old(store)),
{
    delete_msg(store, id);
}

/// The bytes of a chosen image, as a sequence.
pub open spec fn opt_bytes(o: Option<Vec<u8>>) -> Option<Seq<u8>> {
    match o {
        Some(d) => Some(d@),
        None => None,
    }
}

/// The options word of a wait for a key.
pub open spec fn wait_key_extra(terminate: bool, popup: bool) -> u32 {
    (if terminate { 1u32 } else { 0u32 }) | (if popup { 2u32 } else { 0u32 })
}

/// The options word of a wait for typed text.
pub open spec fn wait_input_extra(copy: bool, ignore: bool, regex: bool) -> u32 {
    (if copy { 1u32 } else { 0u32 }) | (if ignore { 2u32 } else { 0u32 }) | (if regex { 4u32 } else { 0u32 })
}

/// The options word of an image match: the confidence in the low byte, the
/// "move the cursor" and "ignore failure" bits, the window title's message
/// id from bit 10 on.
pub open spec fn image_extra(conf: u32, move_mouse: bool, ignore: bool, window_id: u32) -> u32 {
    conf | (if move_mouse { 0x100u32 } else { 0u32 }) | (if ignore { 0x200u32 } else { 0u32 }) | (window_id << 10u32)
}

/// The parameter of a random delay: the smaller bound low, the larger high.
pub open spec fn random_delay_param(a: u64, b: u64) -> u64 {
    if a <= b {
        a | (b << 32u64)
    } else {
        b | (a << 32u64)
    }
}

/// The parameter of a click: the button in the low byte, the hold time
/// above it.
pub open spec fn click_param(button: i32, hold_ms: u64) -> u64 {
    (button as u64 & 0xFF) | (hold_ms << 8u64)
}

/// The parameter of a key press: the key in the low 16 bits, the hold time
/// above them.
pub open spec fn key_param(vk: i32, hold_ms: u64) -> u64 {
    (vk as u64 & 0xFFFF) | (hold_ms << 16u64)
}

// ---------------------------------------------------------------------
// Confirming the edit dialog
// ---------------------------------------------------------------------

/// What confirming the edit form `st` of `step` leads to: the store and the
/// step afterwards; `None` for no form. A move takes `move_ms` as its
/// duration; an image match takes `image` as its new image when one was
/// chosen. Messages the step held are deleted where the form replaces them.
pub open spec fn apply_edit_spec(
    v: StoreView,
    step: TaskStep,
    st: EditState,
    move_ms: u32,
    image: Option<Seq<u8>>,
) -> Option<(StoreView, TaskStep)> {
    match st {
        EditState::Closed => None,
        EditState::Delay { ms_str } => Some(
            (v, TaskStep { param: clamp_delay(parsed_or(ms_str@, u64::MAX as nat, 100)), ..step }),
        ),
        EditState::Click { button, hold_ms, action_type, jitter, .. } => Some(
            (
                v,
                TaskStep {
                    action: action_type,
                    param: if action_type == TaskActionType::MouseClick {
                        click_param(button, hold_ms)
                    } else {
                        button as u64
                    },
                    extra: jitter,
                },
            ),
        ),
        EditState::Key { vk, hold_ms, action_type, .. } => Some(
            (
                v,
                TaskStep {
                    action: action_type,
                    param: if action_type == TaskActionType::KeyPress {
                        key_param(vk, hold_ms)
                    } else {
                        vk as u64 & 0xFFFF
                    },
                    ..step
                },
            ),
        ),
        EditState::Wheel { up } => Some((v, TaskStep { param: if up { 1 } else { 0 }, ..step })),
        EditState::Move { preset, custom_x, custom_y, window_title, is_relative, .. } => {
            let (v2, x, y) = if preset < MOVE_PRESET_COUNT {
                (v, spec_move_preset(preset as int).0, spec_move_preset(preset as int).1)
            } else if preset == MOVE_PRESET_COUNT + 2 {
                let old_y = ((step.param / 0x1_0000_0000) as u32) as i32;
                let (v2, id) = save_if_text(drop_msg(v, old_y as u64), window_title@);
                (v2, -2i32, id as i32)
            } else {
                (v, parsed_i32_or_zero(custom_x@), parsed_i32_or_zero(custom_y@))
            };
            Some(
                (
                    v2,
                    TaskStep {
                        param: move_param(x, y),
                        extra: if is_relative { move_ms | RELATIVE_FLAG } else { move_ms },
                        ..step
                    },
                ),
            )
        },
        EditState::ImageMatch { confidence_str, fail_msg, move_mouse, ignore_failure, window_title, .. } => {
            let conf = parsed_or(confidence_str@, u8::MAX as nat, 85) as u32;
            let v1 = drop_msg(v, (step.extra / 1024) as u64);
            let (v2, win) = save_if_text(v1, window_title@);
            let (v3, img) = match image {
                Some(d) => (save_image_spec(v2, d).0, save_image_spec(v2, d).1 as u32),
                None => (v2, (step.param % 0x1_0000_0000) as u32),
            };
            let v4 = drop_msg(v3, step.param / 0x1_0000_0000);
            let (v5, fail) = save_if_text(v4, fail_msg@);
            Some(
                (
                    v5,
                    TaskStep {
                        action: step.action,
                        param: ((img as u64) + (fail as u32 as u64) * 0x1_0000_0000) as u64,
                        extra: image_extra(conf, move_mouse, ignore_failure, win as u32),
                    },
                ),
            )
        },
        EditState::Notify { msg } => {
            let (v2, id) = save_msg_spec(drop_msg(v, step.param), msg@);
            Some((v2, TaskStep { param: id, ..step }))
        },
        EditState::CopyText { msg } => {
            let (v2, id) = save_msg_spec(drop_msg(v, step.param), msg@);
            Some((v2, TaskStep { param: id, ..step }))
        },
        EditState::Comment { msg, count_str } => {
            let (v2, id) = save_if_text(drop_msg(v, step.param), msg@);
            Some((v2, TaskStep { param: id, extra: parsed_or(count_str@, u32::MAX as nat, 0) as u32, ..step }))
        },
        EditState::LostFocus => Some((v, TaskStep { param: 0, ..step })),
        EditState::ShowWindow => Some((v, TaskStep { param: 0, ..step })),
        EditState::HideWindow => Some((v, TaskStep { param: 0, ..step })),
        EditState::OpenProgram { msg } => {
            let (v2, id) = save_if_text(drop_msg(v, step.param), msg@);
            Some((v2, TaskStep { param: id, ..step }))
        },
        EditState::RandomDelay { min_str, max_str } => Some(
            (
                v,
                TaskStep {
                    param: random_delay_param(
                        clamp_delay(parsed_or(min_str@, u64::MAX as nat, 100)),
                        clamp_delay(parsed_or(max_str@, u64::MAX as nat, 1000)),
                    ),
                    ..step
                },
            ),
        ),
        EditState::ComboKey { preset } => match preset {
            Some(p) => if p < COMBO_PRESET_COUNT {
                Some(
                    (
                        v,
                        TaskStep {
                            param: combo_param(spec_combo_keys(p as int)),
                            extra: spec_combo_keys(p as int).len() as u32,
                            ..step
                        },
                    ),
                )
            } else {
                Some((v, step))
            },
            None => Some((v, step)),
        },
        EditState::WaitUntil { hour_str, minute_str } => {
            let h = parsed_or(hour_str@, u32::MAX as nat, 0);
            let m = parsed_or(minute_str@, u32::MAX as nat, 0);
            let h = if h < 23 { h } else { 23 };
            let m = if m < 59 { m } else { 59 };
            Some((v, TaskStep { action: TaskActionType::WaitUntil, param: (h * 60 + m) as u64, ..step }))
        },
        EditState::WaitKey { vk, terminate, popup, .. } => Some(
            (
                v,
                TaskStep { action: TaskActionType::WaitKey, param: vk as u64, extra: wait_key_extra(terminate, popup) },
            ),
        ),
        EditState::WaitInput { msg, copy_input, ignore_fail, use_regex } => {
            let (v2, id) = save_msg_spec(drop_msg(v, step.param), msg@);
            Some(
                (
                    v2,
                    TaskStep {
                        action: TaskActionType::WaitInput,
                        param: id,
                        extra: wait_input_extra(copy_input, ignore_fail, use_regex),
                    },
                ),
            )
        },
    }
}

fn edited_step(store: &mut ConfigStore, step: TaskStep, st: &EditState, move_ms: u32, image: Option<Vec<u8>>) -> (r:
    Option<TaskStep>)
    requires
        next_msg_id(old(store)@) < u64::MAX - 1,
        next_image_id(old(store)@) < u64::MAX,
    ensures
        match apply_edit_spec(old(store)@, step, *st, move_ms, opt_bytes(image)) {
            None => r is None && final(store)@ == old(store)@,
            Some((v, s)) => r == Some(s) && final(store)@ == v,
        },
        final(store).logged_since(*old(store)),
{
    proof {
        ConfigStore::lemma_logged_refl(*store);
    }
    let ghost v0 = store@;
    match st {
        EditState::Closed => None,
        EditState::Delay { ms_str } => Some(TaskStep { param: delay_field(ms_str.as_str(), 100), ..step }),
        EditState::Click { button, hold_ms, action_type, jitter, .. } => {
            let b = *button;
            let h = *hold_ms;
            let param = if *action_type == TaskActionType::MouseClick {
                (b as u64 & 0xFF) | (h << 8u64)
            } else {
                b as u64
            };
            Some(TaskStep { action: *action_type, param, extra: *jitter })
        },
        EditState::Key { vk, hold_ms, action_type, .. } => {
            let k = *vk;
            let h = *hold_ms;
            let param = if *action_type == TaskActionType::KeyPress {
                (k as u64 & 0xFFFF) | (h << 16u64)
            } else {
                k as u64 & 0xFFFF
            };
            Some(TaskStep { action: *action_type, param, ..step })
        },
        EditState::Wheel { up } => Some(
            TaskStep {
                param: if *up {
                    1
                } else {
                    0
                },
                ..step
            },
        ),
        EditState::Move { preset, custom_x, custom_y, window_title, is_relative, .. } => {
            let (x, y) = if *preset < MOVE_PRESET_COUNT {
                let (px, py, _) = mouse_move_preset(*preset);
                (px, py)
            } else if *preset == MOVE_PRESET_COUNT + 2 {
                let (_, oy) = unpack_move(step.param);
                let hi: u32 = (step.param / 0x1_0000_0000) as u32;
                proof {
                    lemma_i32_bits(oy, hi);
                }
                let ghost logged_from = *store;
                drop_message(store, oy as u64);
                proof {
                    ConfigStore::lemma_logged_trans(*old(store), logged_from, *store);
                }
                proof {
                    lemma_next_ids(v0, Seq::empty(), Seq::empty(), oy as u64);
                }
                let ghost logged_from = *store;
                let id = save_text(store, window_title.as_str());
                proof {
                    ConfigStore::lemma_logged_trans(*old(store), logged_from, *store);
                }
                (-2i32, id as i32)
            } else {
                (i32_field(custom_x.as_str()), i32_field(custom_y.as_str()))
            };
            let extra = if *is_relative {
                move_ms | RELATIVE_FLAG
            } else {
                move_ms
            };
            Some(TaskStep { param: pack_move(x, y), extra, ..step })
        },
        EditState::ImageMatch { confidence_str, fail_msg, move_mouse, ignore_failure, window_title, .. } => {
            let conf: u32 = match parse_u8(confidence_str.as_str()) {
                Some(c) => c as u32,
                None => 85,
            };
            let old_win = step.extra >> 10u32;
            let se = step.extra;
            proof {
                lemma_extra_fields(se);
            }
            let ghost logged_from = *store;
            drop_message(store, old_win as u64);
            proof {
                ConfigStore::lemma_logged_trans(*old(store), logged_from, *store);
            }
            let ghost v1 = store@;
            proof {
                lemma_next_ids(v0, Seq::empty(), Seq::empty(), old_win as u64);
            }
            let ghost logged_from = *store;
            let win = save_text(store, window_title.as_str());
            proof {
                ConfigStore::lemma_logged_trans(*old(store), logged_from, *store);
            }
            let ghost v2 = store@;
            proof {
                lemma_next_ids(v1, window_title@, Seq::empty(), 0);
            }
            let (old_img, old_fail) = unpack_image_match(step.param);
            let img: u32 = match image {
                Some(d) => {
                    let ghost logged_from = *store;
                    let id = save_image(store, d.as_slice());
                    proof {
                        ConfigStore::lemma_logged_trans(*old(store), logged_from, *store);
                    }
                    id as u32
                },
                None => old_img,
            };
            let ghost v3 = store@;
            proof {
                lemma_next_ids(v2, Seq::empty(), opt_bytes(image).unwrap_or(Seq::empty()), 0);
                assert(next_msg_id(v3) == next_msg_id(v2));
            }
            let ghost logged_from = *store;
            drop_message(store, old_fail as u64);
            proof {
                ConfigStore::lemma_logged_trans(*old(store), logged_from, *store);
            }
            proof {
                lemma_next_ids(v3, Seq::empty(), Seq::empty(), old_fail as u64);
            }
            let ghost logged_from = *store;
            let fail = save_text(store, fail_msg.as_str());
            proof {
                ConfigStore::lemma_logged_trans(*old(store), logged_from, *store);
            }
            let mm: u32 = if *move_mouse {
                0x100
            } else {
                0
            };
            let ig: u32 = if *ignore_failure {
                0x200
            } else {
                0
            };
            let extra: u32 = conf | mm | ig | ((win as u32) << 10u32);
            let param = pack_image_match(img, fail as u32);
            Some(TaskStep { action: step.action, param, extra })
        },
        EditState::Notify { msg } => {
            let ghost logged_from = *store;
            drop_message(store, step.param);
            proof {
                ConfigStore::lemma_logged_trans(*old(store), logged_from, *store);
            }
            proof {
                lemma_next_ids(v0, Seq::empty(), Seq::empty(), step.param);
            }
            let ghost logged_from = *store;
            let id = save_msg(store, msg.as_str());
            proof {
                ConfigStore::lemma_logged_trans(*old(store), logged_from, *store);
            }
            Some(TaskStep { param: id, ..step })
        },
        EditState::CopyText { msg } => {
            let ghost logged_from = *store;
            drop_message(store, step.param);
            proof {
                ConfigStore::lemma_logged_trans(*old(store), logged_from, *store);
            }
            proof {
                lemma_next_ids(v0, Seq::empty(), Seq::empty(), step.param);
            }
            let ghost logged_from = *store;
            let id = save_msg(store, msg.as_str());
            proof {
                ConfigStore::lemma_logged_trans(*old(store), logged_from, *store);
            }
            Some(TaskStep { param: id, ..step })
        },
        EditState::Comment { msg, count_str } => {
            let ghost logged_from = *store;
            drop_message(store, step.param);
            proof {
                ConfigStore::lemma_logged_trans(*old(store), logged_from, *store);
            }
            proof {
                lemma_next_ids(v0, Seq::empty(), Seq::empty(), step.param);
            }
            let ghost logged_from = *store;
            let id = save_text(store, msg.as_str());
            proof {
                ConfigStore::lemma_logged_trans(*old(store), logged_from, *store);
            }
            let count = u32_field(count_str.as_str(), 0);
            Some(TaskStep { param: id, extra: count, ..step })
        },
        EditState::LostFocus => Some(TaskStep { param: 0, ..step }),
        EditState::ShowWindow => Some(TaskStep { param: 0, ..step }),
        EditState::HideWindow => Some(TaskStep { param: 0, ..step }),
        EditState::OpenProgram { msg } => {
            let ghost logged_from = *store;
            drop_message(store, step.param);
            proof {
                ConfigStore::lemma_logged_trans(*old(store), logged_from, *store);
            }
            proof {
                lemma_next_ids(v0, Seq::empty(), Seq::empty(), step.param);
            }
            let ghost logged_from = *store;
            let id = save_text(store, msg.as_str());
            proof {
                ConfigStore::lemma_logged_trans(*old(store), logged_from, *store);
            }
            Some(TaskStep { param: id, ..step })
        },
        EditState::RandomDelay { min_str, max_str } => {
            let a = delay_field(min_str.as_str(), 100);
            let b = delay_field(max_str.as_str(), 1000);
            let param = if a <= b {
                a | (b << 32u64)
            } else {
                b | (a << 32u64)
            };
            Some(TaskStep { param, ..step })
        },
        EditState::ComboKey { preset } => match preset {
            Some(p) => {
                if *p < COMBO_PRESET_COUNT {
                    let cp = combo_preset(*p);
                    let n = cp.vks.len();
                    assert(n <= 8) by {
                        reveal_with_fuel(spec_combo_keys, 1);
                    }
                    let param = pack_combo(cp.vks.as_slice());
                    Some(TaskStep { param, extra: n as u32, ..step })
                } else {
                    Some(step)
                }
            },
            None => Some(step),
        },
        EditState::WaitUntil { hour_str, minute_str } => {
            let h = u32_field(hour_str.as_str(), 0);
            let m = u32_field(minute_str.as_str(), 0);
            let h = if h < 23 {
                h
            } else {
                23
            };
            let m = if m < 59 {
                m
            } else {
                59
            };
            Some(TaskStep { action: TaskActionType::WaitUntil, param: (h * 60 + m) as u64, ..step })
        },
        EditState::WaitKey { vk, terminate, popup, .. } => {
            let t: u32 = if *terminate {
                1
            } else {
                0
            };
            let p: u32 = if *popup {
                2
            } else {
                0
            };
            Some(TaskStep { action: TaskActionType::WaitKey, param: *vk as u64, extra: t | p })
        },
        EditState::WaitInput { msg, copy_input, ignore_fail, use_regex } => {
            let ghost logged_from = *store;
            drop_message(store, step.param);
            proof {
                ConfigStore::lemma_logged_trans(*old(store), logged_from, *store);
            }
            proof {
                lemma_next_ids(v0, Seq::empty(), Seq::empty(), step.param);
            }
            let ghost logged_from = *store;
            let id = save_msg(store, msg.as_str());
            proof {
                ConfigStore::lemma_logged_trans(*old(store), logged_from, *store);
            }
            let c: u32 = if *copy_input {
                1
            } else {
                0
            };
            let i: u32 = if *ignore_fail {
                2
            } else {
                0
            };
            let r: u32 = if *use_regex {
                4
            } else {
                0
            };
            Some(TaskStep { action: TaskActionType::WaitInput, param: id, extra: c | i | r })
        },
    }
}

/// Confirms the edit form `st` of step `idx`: the step and the stored
/// messages and images change as [`apply_edit_spec`] says, and the list is
/// saved. Returns whether anything was applied (nothing for no form).
pub fn apply_edit(
    store: &mut ConfigStore,
    tasks: &mut Vec<TaskStep>,
    idx: usize,
    st: &EditState,
    move_ms: u32,
    image: Option<Vec<u8>>,
) -> (applied: bool)
    requires
        idx < old(tasks)@.len(),
        next_msg_id(old(store)@) < u64::MAX - 1,
        next_image_id(old(store)@) < u64::MAX,
    ensures
        match apply_edit_spec(old(store)@, old(tasks)@[idx as int], *st, move_ms, opt_bytes(image)) {
            None => !applied && final(tasks)@ == old(tasks)@ && final(store)@ == old(store)@,
            Some((v, s)) => applied && final(tasks)@ == old(tasks)@.update(idx as int, s) && final(store)@.config
                == v.config.insert("tasks"@, encode_spec(final(tasks)@)) && final(store)@.images == v.images,
        },
        final(store).logged_since(*old(store)),
        applied ==> final(store).pending().last() == ChangeView::SetValue("tasks"@, encode_spec(final(tasks)@)),
{
    let step = tasks[idx];
    match edited_step(store, step, st, move_ms, image) {
        Some(s) => {
            tasks.set(idx, s);
            let ghost mid = *store;
            save_tasks(store, tasks.as_slice());
            proof {
                ConfigStore::lemma_logged_trans(*old(store), mid, *store);
            }
            true
        },
        None => false,
    }
}

// ---------------------------------------------------------------------
// Confirming the add dialog
// ---------------------------------------------------------------------

/// A new step.
pub open spec fn new_step(action: TaskActionType, param: u64, extra: u32) -> TaskStep {
    TaskStep { action, param, extra }
}

/// A confidence typed for a new image match: 85 when it does not parse,
/// kept between 1 and 100.
pub open spec fn new_confidence(s: Seq<char>) -> u32 {
    let c = parsed_or(s, u8::MAX as nat, 85);
    if c < 1 {
        1
    } else if c > 100 {
        100
    } else {
        c as u32
    }
}

/// What confirming the add form `st` leads to: the store afterwards and the
/// new step; `None` when nothing is added (no form, the kind picker, an
/// empty message or path where one is needed, an image that could not be
/// read, a combo without a preset). A move takes `move_ms` as its duration;
/// an image match takes `image` as the bytes of its file.
pub open spec fn add_spec(v: StoreView, st: AddState, move_ms: u32, image: Option<Seq<u8>>) -> Option<
    (StoreView, TaskStep),
> {
    match st {
        AddState::Closed => None,
        AddState::PickType => None,
        AddState::ConfigDelay { ms_str } => Some(
            (v, new_step(TaskActionType::Delay, clamp_delay(parsed_or(ms_str@, u64::MAX as nat, 100)), 0)),
        ),
        AddState::ConfigClick { button, hold_ms, action_type, jitter_str, .. } => {
            let j = parsed_or(jitter_str@, u32::MAX as nat, 0);
            Some(
                (
                    v,
                    new_step(
                        action_type,
                        if action_type == TaskActionType::MouseClick {
                            click_param(button, hold_ms)
                        } else {
                            button as u64
                        },
                        if j < 50 { j as u32 } else { 50 },
                    ),
                ),
            )
        },
        AddState::ConfigKey { vk, hold_ms, action_type, .. } => Some(
            (
                v,
                new_step(
                    action_type,
                    if action_type == TaskActionType::KeyPress {
                        key_param(vk, hold_ms)
                    } else {
                        vk as u64 & 0xFFFF
                    },
                    0,
                ),
            ),
        ),
        AddState::ConfigWheel { up } => Some((v, new_step(TaskActionType::MouseWheel, if up { 1 } else { 0 }, 0))),
        AddState::ConfigMove { preset, custom_x, custom_y, window_title, is_relative, .. } => {
            let (v2, x, y) = if preset < MOVE_PRESET_COUNT {
                (v, spec_move_preset(preset as int).0, spec_move_preset(preset as int).1)
            } else if preset == MOVE_PRESET_COUNT + 2 {
                let (v2, id) = save_if_text(v, window_title@);
                (v2, -2i32, id as i32)
            } else {
                (v, parsed_i32_or_zero(custom_x@), parsed_i32_or_zero(custom_y@))
            };
            Some(
                (
                    v2,
                    new_step(
                        TaskActionType::MouseMove,
                        move_param(x, y),
                        if is_relative { move_ms | RELATIVE_FLAG } else { move_ms },
                    ),
                ),
            )
        },
        AddState::ConfigImageMatch { path, confidence_str, fail_msg, move_mouse, ignore_failure, window_title, .. } => {
            if path@.len() == 0 {
                None
            } else {
                match image {
                    None => None,
                    Some(d) => {
                        let (v1, img) = save_image_spec(v, d);
                        let (v2, fail) = save_if_text(v1, fail_msg@);
                        let (v3, win) = save_if_text(v2, window_title@);
                        Some(
                            (
                                v3,
                                new_step(
                                    TaskActionType::ImageMatch,
                                    ((img as u32 as u64) + (fail as u32 as u64) * 0x1_0000_0000) as u64,
                                    image_extra(new_confidence(confidence_str@), move_mouse, ignore_failure, win as u32),
                                ),
                            ),
                        )
                    },
                }
            }
        },
        AddState::ConfigNotify { msg } => if msg@.len() == 0 {
            None
        } else {
            Some((save_msg_spec(v, msg@).0, new_step(TaskActionType::Notify, save_msg_spec(v, msg@).1, 0)))
        },
        AddState::ConfigRandomDelay { min_str, max_str } => Some(
            (
                v,
                new_step(
                    TaskActionType::RandomDelay,
                    random_delay_param(
                        clamp_delay(parsed_or(min_str@, u64::MAX as nat, 100)),
                        clamp_delay(parsed_or(max_str@, u64::MAX as nat, 1000)),
                    ),
                    0,
                ),
            ),
        ),
        AddState::ConfigComboKey { preset } => if preset < COMBO_PRESET_COUNT {
            Some(
                (
                    v,
                    new_step(
                        TaskActionType::ComboKey,
                        combo_param(spec_combo_keys(preset as int)),
                        spec_combo_keys(preset as int).len() as u32,
                    ),
                ),
            )
        } else {
            None
        },
        AddState::ConfigWaitUntil { hour_str, minute_str } => {
            let h = parsed_or(hour_str@, u32::MAX as nat, 0);
            let m = parsed_or(minute_str@, u32::MAX as nat, 0);
            let h = if h < 23 { h } else { 23 };
            let m = if m < 59 { m } else { 59 };
            Some((v, new_step(TaskActionType::WaitUntil, (h * 60 + m) as u64, 0)))
        },
        AddState::ConfigCopyText { msg } => if msg@.len() == 0 {
            None
        } else {
            Some((save_msg_spec(v, msg@).0, new_step(TaskActionType::CopyText, save_msg_spec(v, msg@).1, 0)))
        },
        AddState::ConfigComment { msg, count_str } => Some(
            (
                save_if_text(v, msg@).0,
                new_step(
                    TaskActionType::Comment,
                    save_if_text(v, msg@).1,
                    parsed_or(count_str@, u32::MAX as nat, 0) as u32,
                ),
            ),
        ),
        AddState::ConfigWaitKey { vk, terminate, popup, .. } => Some(
            (v, new_step(TaskActionType::WaitKey, vk as u64, wait_key_extra(terminate, popup))),
        ),
        AddState::ConfigWaitInput { msg, copy_input, ignore_fail, use_regex } => if msg@.len() == 0 {
            None
        } else {
            Some(
                (
                    save_msg_spec(v, msg@).0,
                    new_step(
                        TaskActionType::WaitInput,
                        save_msg_spec(v, msg@).1,
                        wait_input_extra(copy_input, ignore_fail, use_regex),
                    ),
                ),
            )
        },
        AddState::ConfigOpenProgram { msg } => if msg@.len() == 0 {
            None
        } else {
            Some((save_msg_spec(v, msg@).0, new_step(TaskActionType::OpenProgram, save_msg_spec(v, msg@).1, 0)))
        },
    }
}

fn added_step(store: &mut ConfigStore, st: &AddState, move_ms: u32, image: Option<Vec<u8>>) -> (r: Option<TaskStep>)
    requires
        next_msg_id(old(store)@) < u64::MAX - 1,
        next_image_id(old(store)@) < u64::MAX,
    ensures
        match add_spec(old(store)@, *st, move_ms, opt_bytes(image)) {
            None => r is None && final(store)@ == old(store)@,
            Some((v, s)) => r == Some(s) && final(store)@ == v,
        },
        final(store).logged_since(*old(store)),
{
    proof {
        ConfigStore::lemma_logged_refl(*store);
    }
    let ghost v0 = store@;
    match st {
        AddState::Closed => None,
        AddState::PickType => None,
        AddState::ConfigDelay { ms_str } => Some(
            TaskStep { action: TaskActionType::Delay, param: delay_field(ms_str.as_str(), 100), extra: 0 },
        ),
        AddState::ConfigClick { button, hold_ms, action_type, jitter_str, .. } => {
            let j = u32_field(jitter_str.as_str(), 0);
            let jitter = if j < 50 {
                j
            } else {
                50
            };
            let b = *button;
            let h = *hold_ms;
            let param = if *action_type == TaskActionType::MouseClick {
                (b as u64 & 0xFF) | (h << 8u64)
            } else {
                b as u64
            };
            Some(TaskStep { action: *action_type, param, extra: jitter })
        },
        AddState::ConfigKey { vk, hold_ms, action_type, .. } => {
            let k = *vk;
            let h = *hold_ms;
            let param = if *action_type == TaskActionType::KeyPress {
                (k as u64 & 0xFFFF) | (h << 16u64)
            } else {
                k as u64 & 0xFFFF
            };
            Some(TaskStep { action: *action_type, param, extra: 0 })
        },
        AddState::ConfigWheel { up } => Some(
            TaskStep {
                action: TaskActionType::MouseWheel,
                param: if *up {
                    1
                } else {
                    0
                },
                extra: 0,
            },
        ),
        AddState::ConfigMove { preset, custom_x, custom_y, window_title, is_relative, .. } => {
            let (x, y) = if *preset < MOVE_PRESET_COUNT {
                let (px, py, _) = mouse_move_preset(*preset);
                (px, py)
            } else if *preset == MOVE_PRESET_COUNT + 2 {
                let ghost logged_from = *store;
                let id = save_text(store, window_title.as_str());
                proof {
                    ConfigStore::lemma_logged_trans(*old(store), logged_from, *store);
                }
                (-2i32, id as i32)
            } else {
                (i32_field(custom_x.as_str()), i32_field(custom_y.as_str()))
            };
            let extra = if *is_relative {
                move_ms | RELATIVE_FLAG
            } else {
                move_ms
            };
            Some(TaskStep { action: TaskActionType::MouseMove, param: pack_move(x, y), extra })
        },
        AddState::ConfigImageMatch { path, confidence_str, fail_msg, move_mouse, ignore_failure, window_title, .. } => {
            if char_len(path.as_str()) == 0 {
                return None;
            }
            match image {
                None => None,
                Some(d) => {
                    let ghost logged_from = *store;
                    let img = save_image(store, d.as_slice());
                    proof {
                        ConfigStore::lemma_logged_trans(*old(store), logged_from, *store);
                    }
                    let ghost v1 = store@;
                    proof {
                        lemma_next_ids(v0, Seq::empty(), d@, 0);
                    }
                    let ghost logged_from = *store;
                    let fail = save_text(store, fail_msg.as_str());
                    proof {
                        ConfigStore::lemma_logged_trans(*old(store), logged_from, *store);
                    }
                    proof {
                        lemma_next_ids(v1, fail_msg@, Seq::empty(), 0);
                    }
                    let ghost logged_from = *store;
                    let win = save_text(store, window_title.as_str());
                    proof {
                        ConfigStore::lemma_logged_trans(*old(store), logged_from, *store);
                    }
                    let c: u32 = match parse_u8(confidence_str.as_str()) {
                        Some(c) => c as u32,
                        None => 85,
                    };
                    let conf: u32 = if c < 1 {
                        1
                    } else if c > 100 {
                        100
                    } else {
                        c
                    };
                    let mm: u32 = if *move_mouse {
                        0x100
                    } else {
                        0
                    };
                    let ig: u32 = if *ignore_failure {
                        0x200
                    } else {
                        0
                    };
                    let extra: u32 = conf | mm | ig | ((win as u32) << 10u32);
                    let param = pack_image_match(img as u32, fail as u32);
                    Some(TaskStep { action: TaskActionType::ImageMatch, param, extra })
                },
            }
        },
        AddState::ConfigNotify { msg } => {
            if char_len(msg.as_str()) == 0 {
                None
            } else {
                let ghost logged_from = *store;
                let id = save_msg(store, msg.as_str());
                proof {
                    ConfigStore::lemma_logged_trans(*old(store), logged_from, *store);
                }
                Some(TaskStep { action: TaskActionType::Notify, param: id, extra: 0 })
            }
        },
        AddState::ConfigRandomDelay { min_str, max_str } => {
            let a = delay_field(min_str.as_str(), 100);
            let b = delay_field(max_str.as_str(), 1000);
            let param = if a <= b {
                a | (b << 32u64)
            } else {
                b | (a << 32u64)
            };
            Some(TaskStep { action: TaskActionType::RandomDelay, param, extra: 0 })
        },
        AddState::ConfigComboKey { preset } => {
            if *preset < COMBO_PRESET_COUNT {
                let cp = combo_preset(*preset);
                let n = cp.vks.len();
                assert(n <= 8) by {
                    reveal_with_fuel(spec_combo_keys, 1);
                }
                let param = pack_combo(cp.vks.as_slice());
                Some(TaskStep { action: TaskActionType::ComboKey, param, extra: n as u32 })
            } else {
                None
            }
        },
        AddState::ConfigWaitUntil { hour_str, minute_str } => {
            let h = u32_field(hour_str.as_str(), 0);
            let m = u32_field(minute_str.as_str(), 0);
            let h = if h < 23 {
                h
            } else {
                23
            };
            let m = if m < 59 {
                m
            } else {
                59
            };
            Some(TaskStep { action: TaskActionType::WaitUntil, param: (h * 60 + m) as u64, extra: 0 })
        },
        AddState::ConfigCopyText { msg } => {
            if char_len(msg.as_str()) == 0 {
                None
            } else {
                let ghost logged_from = *store;
                let id = save_msg(store, msg.as_str());
                proof {
                    ConfigStore::lemma_logged_trans(*old(store), logged_from, *store);
                }
                Some(TaskStep { action: TaskActionType::CopyText, param: id, extra: 0 })
            }
        },
        AddState::ConfigComment { msg, count_str } => {
            let ghost logged_from = *store;
            let id = save_text(store, msg.as_str());
            proof {
                ConfigStore::lemma_logged_trans(*old(store), logged_from, *store);
            }
            let count = u32_field(count_str.as_str(), 0);
            Some(TaskStep { action: TaskActionType::Comment, param: id, extra: count })
        },
        AddState::ConfigWaitKey { vk, terminate, popup, .. } => {
            let t: u32 = if *terminate {
                1
            } else {
                0
            };
            let p: u32 = if *popup {
                2
            } else {
                0
            };
            Some(TaskStep { action: TaskActionType::WaitKey, param: *vk as u64, extra: t | p })
        },
        AddState::ConfigWaitInput { msg, copy_input, ignore_fail, use_regex } => {
            if char_len(msg.as_str()) == 0 {
                None
            } else {
                let ghost logged_from = *store;
                let id = save_msg(store, msg.as_str());
                proof {
                    ConfigStore::lemma_logged_trans(*old(store), logged_from, *store);
                }
                let c: u32 = if *copy_input {
                    1
                } else {
                    0
                };
                let i: u32 = if *ignore_fail {
                    2
                } else {
                    0
                };
                let r: u32 = if *use_regex {
                    4
                } else {
                    0
                };
                Some(TaskStep { action: TaskActionType::WaitInput, param: id, extra: c | i | r })
            }
        },
        AddState::ConfigOpenProgram { msg } => {
            if char_len(msg.as_str()) == 0 {
                None
            } else {
                let ghost logged_from = *store;
                let id = save_msg(store, msg.as_str());
                proof {
                    ConfigStore::lemma_logged_trans(*old(store), logged_from, *store);
                }
                Some(TaskStep { action: TaskActionType::OpenProgram, param: id, extra: 0 })
            }
        },
    }
}

/// Confirms the add form `st`: the new step goes to the end of the list,
/// the stored messages and images change as [`add_spec`] says, and the list
/// is saved. Returns whether a step was added.
pub fn add_step(
    store: &mut ConfigStore,
    tasks: &mut Vec<TaskStep>,
    st: &AddState,
    move_ms: u32,
    image: Option<Vec<u8>>,
) -> (added: bool)
    requires
        next_msg_id(old(store)@) < u64::MAX - 1,
        next_image_id(old(store)@) < u64::MAX,
    ensures
        match add_spec(old(store)@, *st, move_ms, opt_bytes(image)) {
            None => !added && final(tasks)@ == old(tasks)@ && final(store)@ == old(store)@,
            Some((v, s)) => added && final(tasks)@ == old(tasks)@.push(s) && final(store)@.config == v.config.insert(
                "tasks"@,
                encode_spec(final(tasks)@),
            ) && final(store)@.images == v.images,
        },
        final(store).logged_since(*old(store)),
        added ==> final(store).pending().last() == ChangeView::SetValue("tasks"@, encode_spec(final(tasks)@)),
{
    match added_step(store, st, move_ms, image) {
        Some(s) => {
            tasks.push(s);
            let ghost mid = *store;
            save_tasks(store, tasks.as_slice());
            proof {
                ConfigStore::lemma_logged_trans(*old(store), mid, *store);
            }
            true
        },
        None => false,
    }
}

/// Adds a step that needs no settings (losing focus, showing or hiding the
/// window) to the end of the list, and saves the list.
pub fn add_plain_step(store: &mut ConfigStore, tasks: &mut Vec<TaskStep>, action: TaskActionType)
    ensures
        final(tasks)@ == old(tasks)@.push(new_step(action, 0, 0)),
        final(store)@.config == old(store)@.config.insert("tasks"@, encode_spec(final(tasks)@)),
        final(store)@.images == old(store)@.images,
        final(store).pending() == old(store).pending().push(ChangeView::SetValue("tasks"@, encode_spec(final(tasks)@))),
        final(store).logged_since(*old(store)),
{
    tasks.push(TaskStep { action, param: 0, extra: 0 });
    save_tasks(store, tasks.as_slice());
}

// ---------------------------------------------------------------------
// Keeping a form's numbers in step with their text
// ---------------------------------------------------------------------

/// A number kept in step with its text field: the typed value, capped,
/// when it parses; unchanged otherwise.
pub open spec fn synced(current: nat, s: Seq<char>, max: nat, cap: nat) -> nat {
    match parse_unsigned(s, max) {
        Some(n) => if n < cap { n } else { cap },
        None => current,
    }
}

/// A hold time kept in step with its text field (capped at a minute).
pub fn sync_hold(current: u64, text: &str) -> (r: u64)
    ensures
        r == synced(current as nat, text@, u64::MAX as nat, 60000),
{
    match parse_u64(text) {
        Some(n) => if n < 60000 {
            n
        } else {
            60000
        },
        None => current,
    }
}

/// A jitter radius kept in step with its text field (capped at 50 px).
pub fn sync_jitter(current: u32, text: &str) -> (r: u32)
    ensures
        r == synced(current as nat, text@, u32::MAX as nat, 50),
{
    match parse_u32(text) {
        Some(n) => if n < 50 {
            n
        } else {
            50
        },
        None => current,
    }
}

// ---------------------------------------------------------------------
// Recording a key in the add dialog
// ---------------------------------------------------------------------

/// The key a key step records: the first key code from 0 up that is down
/// and is not a mouse button (`down` holds each code's state).
pub fn first_key_down(down: &Vec<bool>) -> (r: Option<i32>)
    ensures
        match r {
            Some(k) => 0 <= k < 256 && k < down@.len() && down@[k as int] && !crate::keys::is_mouse_vk_spec(k)
                && forall|j: int| 0 <= j < k && j < down@.len() && down@[j] ==> crate::keys::is_mouse_vk_spec(j as i32),
            None => forall|k: int|
                0 <= k < 256 && k < down@.len() && down@[k] ==> crate::keys::is_mouse_vk_spec(k as i32),
        },
{
    let mut k: i32 = 0;
    while k < 256
        invariant
            0 <= k <= 256,
            forall|j: int| 0 <= j < k && j < down@.len() && down@[j] ==> crate::keys::is_mouse_vk_spec(j as i32),
        decreases 256 - k,
    {
        if !crate::keys::is_mouse_vk(k) && (k as usize) < down.len() && down[k as usize] {
            return Some(k);
        }
        k = k + 1;
    }
    None
}

/// The key a wait-for-key step records: the first code from 1 to 255 whose
/// `GetAsyncKeyState` word has the down or the pressed-since bit (0x8001),
/// leaving out the mouse buttons and code 7.
pub fn first_wait_key(states: &Vec<u16>) -> (r: Option<i32>)
    ensures
        match r {
            Some(k) => 1 <= k <= 255 && k < states@.len() && states@[k as int] & 0x8001 != 0 && !(k == 1 || k == 2 || k
                == 4 || k == 5 || k == 6 || k == 7) && forall|j: int|
                1 <= j < k && j < states@.len() && states@[j] & 0x8001 != 0 ==> (j == 1 || j == 2 || j == 4 || j == 5
                    || j == 6 || j == 7),
            None => forall|j: int|
                1 <= j <= 255 && j < states@.len() && states@[j] & 0x8001 != 0 ==> (j == 1 || j == 2 || j == 4 || j == 5
                    || j == 6 || j == 7),
        },
{
    let mut k: i32 = 1;
    while k <= 255
        invariant
            1 <= k <= 256,
            forall|j: int|
                1 <= j < k && j < states@.len() && states@[j] & 0x8001 != 0 ==> (j == 1 || j == 2 || j == 4 || j == 5
                    || j == 6 || j == 7),
        decreases 256 - k,
    {
        if (k as usize) < states.len() && states[k as usize] & 0x8001 != 0 && k != 1 && k != 2 && k != 4 && k != 5
            && k != 6 && k != 7 {
            return Some(k);
        }
        k = k + 1;
    }
    None
}

// ---------------------------------------------------------------------
// Opening the edit dialog
// ---------------------------------------------------------------------

/// Whether `img` is what the store holds for image `id`.
pub open spec fn loaded_image(v: StoreView, id: u64, img: Option<Vec<u8>>) -> bool {
    match img {
        Some(d) => v.images.contains_key(id) && d@ == v.images[id],
        None => !v.images.contains_key(id),
    }
}

/// The text of message `id`, or nothing for id 0.
pub open spec fn msg_or_empty(v: StoreView, id: u64) -> Seq<char> {
    if id == 0 {
        Seq::empty()
    } else {
        crate::config::load_msg_spec(v, id)
    }
}

/// The preset a move target opens with: the window-centre entry for a
/// window target, the distance entry for a relative move, a fixed preset
/// when the target is one, else the coordinates entry.
pub open spec fn move_preset_of(x: i32, y: i32, relative: bool) -> usize {
    if x == -2 {
        (MOVE_PRESET_COUNT + 2) as usize
    } else if relative {
        (MOVE_PRESET_COUNT + 1) as usize
    } else if x == -1 && y == -1 {
        0
    } else if x == 100 && y == 0 {
        1
    } else if x == -100 && y == 0 {
        2
    } else if x == 0 && y == 100 {
        3
    } else if x == 0 && y == -100 {
        4
    } else {
        MOVE_PRESET_COUNT
    }
}

/// Whether `st` is the form the edit dialog opens with for `step`, reading
/// the step's messages and image from the store; `secs` is a timed move's
/// duration as shown in seconds.
pub open spec fn edit_form_of(v: StoreView, step: TaskStep, secs: Seq<char>, st: EditState) -> bool {
    let p = step.param;
    let e = step.extra;
    match step.action {
        TaskActionType::Delay => st matches EditState::Delay { ms_str } && ms_str@ == crate::text::dec(p as nat),
        TaskActionType::MouseClick => st matches EditState::Click {
            button,
            hold_ms,
            hold_str,
            action_type,
            jitter,
            jitter_str,
        } && button == (p % 256) as i32 && hold_ms == p / 256 && hold_str@ == crate::text::dec(hold_ms as nat)
            && action_type == TaskActionType::MouseClick && jitter == e && jitter_str@ == crate::text::dec(e as nat),
        TaskActionType::MouseDown | TaskActionType::MouseUp => st matches EditState::Click {
            button,
            hold_ms,
            hold_str,
            action_type,
            jitter,
            jitter_str,
        } && button == p as i32 && hold_ms == 0 && hold_str@ == seq!['0'] && action_type == step.action && jitter == e
            && jitter_str@ == crate::text::dec(e as nat),
        TaskActionType::KeyPress => st matches EditState::Key { vk, hold_ms, hold_str, recording, action_type }
            && vk == (p % 0x10000) as i32 && hold_ms == p / 0x10000 && hold_str@ == crate::text::dec(hold_ms as nat)
            && !recording && action_type == TaskActionType::KeyPress,
        TaskActionType::KeyDown | TaskActionType::KeyUp => st matches EditState::Key {
            vk,
            hold_ms,
            hold_str,
            recording,
            action_type,
        } && vk == p as i32 && hold_ms == 0 && hold_str@ == seq!['0'] && !recording && action_type == step.action,
        TaskActionType::MouseWheel => st matches EditState::Wheel { up } && up == (p != 0),
        TaskActionType::ImageMatch => st matches EditState::ImageMatch {
            image_id,
            new_path,
            new_thumbnail,
            full_image,
            show_preview,
            preview_w,
            preview_h,
            confidence_str,
            fail_msg,
            move_mouse,
            ignore_failure,
            window_title,
        } && image_id == p % 0x1_0000_0000 && new_path@.len() == 0 && new_thumbnail is None && loaded_image(
            v,
            image_id as u64,
            full_image,
        ) && !show_preview && preview_w == 0 && preview_h == 0 && confidence_str@ == crate::text::dec((e % 256) as nat)
            && fail_msg@ == msg_or_empty(v, p / 0x1_0000_0000) && move_mouse == ((e / 256) % 2 == 1) && ignore_failure
            == ((e / 512) % 2 == 1) && window_title@ == msg_or_empty(v, (e / 1024) as u64),
        TaskActionType::Notify => st matches EditState::Notify { msg } && msg@ == crate::config::load_msg_spec(v, p),
        TaskActionType::LostFocus => st is LostFocus,
        TaskActionType::ShowWindow => st is ShowWindow,
        TaskActionType::HideWindow => st is HideWindow,
        TaskActionType::OpenProgram => st matches EditState::OpenProgram { msg } && msg@ == crate::config::load_msg_spec(
            v,
            p,
        ),
        TaskActionType::RandomDelay => st matches EditState::RandomDelay { min_str, max_str } && min_str@
            == crate::text::dec((p % 0x1_0000_0000) as nat) && max_str@ == crate::text::dec((p / 0x1_0000_0000) as nat),
        TaskActionType::ComboKey => st matches EditState::ComboKey { preset } && preset == Some(
            crate::constants::combo_preset_of(crate::constants::combo_keys_of(p, e)) as usize,
        ),
        TaskActionType::WaitUntil => st matches EditState::WaitUntil { hour_str, minute_str } && hour_str@
            == crate::text::dec(((p % 0x1_0000_0000) / 60) as nat) && minute_str@ == crate::text::dec2(
            ((p % 0x1_0000_0000) % 60) as nat,
        ),
        TaskActionType::WaitKey => st matches EditState::WaitKey { vk, recording, terminate, popup } && vk == p as i32
            && !recording && terminate == (e % 2 == 1) && popup == ((e / 2) % 2 == 1),
        TaskActionType::WaitInput => st matches EditState::WaitInput { msg, copy_input, ignore_fail, use_regex } && msg@
            == crate::config::load_msg_spec(v, p) && copy_input == (e % 2 == 1) && ignore_fail == ((e / 2) % 2 == 1)
            && use_regex == ((e / 4) % 2 == 1),
        TaskActionType::CopyText => st matches EditState::CopyText { msg } && msg@ == crate::config::load_msg_spec(v, p),
        TaskActionType::Comment => st matches EditState::Comment { msg, count_str } && msg@
            == crate::config::load_msg_spec(v, p) && count_str@ == (if e == 0 {
            Seq::empty()
        } else {
            crate::text::dec(e as nat)
        }),
        TaskActionType::MouseMove => {
            let x = ((p % 0x1_0000_0000) as u32) as i32;
            let y = ((p / 0x1_0000_0000) as u32) as i32;
            let rel = e / 0x100_0000 == 1;
            let pr = move_preset_of(x, y, rel);
            st matches EditState::Move { preset, secs_str, custom_x, custom_y, window_title, is_relative } && preset == pr
                && secs_str@ == secs && custom_x@ == (if pr == MOVE_PRESET_COUNT || pr == MOVE_PRESET_COUNT + 1 {
                crate::text::dec_signed(x as int)
            } else {
                Seq::empty()
            }) && custom_y@ == (if pr == MOVE_PRESET_COUNT || pr == MOVE_PRESET_COUNT + 1 {
                crate::text::dec_signed(y as int)
            } else {
                Seq::empty()
            }) && window_title@ == (if x == -2 {
                crate::config::load_msg_spec(v, y as u64)
            } else {
                Seq::empty()
            }) && is_relative == rel
        },
    }
}

fn msg_text(store: &ConfigStore, id: u64) -> (r: String)
    ensures
        r@ == msg_or_empty(store@, id),
{
    if id != 0 {
        crate::config::load_msg(store, id)
    } else {
        String::new()
    }
}

/// The form the edit dialog opens with for `step`; `secs_text` is a timed
/// move's duration as shown in seconds.
pub fn start_edit(store: &ConfigStore, step: &TaskStep, secs_text: &str) -> (r: EditState)
    ensures
        edit_form_of(store@, *step, secs_text@, r),
{
    let p = step.param;
    let e = step.extra;
    match step.action {
        TaskActionType::Delay => EditState::Delay { ms_str: crate::text::fmt_u64(p) },
        TaskActionType::MouseClick => {
            let b = (p & 0xFF) as i32;
            let hold = p >> 8u64;
            proof {
                lemma_param_fields(p);
            }
            EditState::Click {
                button: b,
                hold_ms: hold,
                hold_str: crate::text::fmt_u64(hold),
                action_type: TaskActionType::MouseClick,
                jitter: e,
                jitter_str: crate::text::fmt_u64(e as u64),
            }
        },
        TaskActionType::MouseDown | TaskActionType::MouseUp => {
            let zero = String::from_str("0");
            proof {
                reveal_strlit("0");
                assert(zero@ =~= seq!['0']);
            }
            EditState::Click {
                button: p as i32,
                hold_ms: 0,
                hold_str: zero,
                action_type: step.action,
                jitter: e,
                jitter_str: crate::text::fmt_u64(e as u64),
            }
        },
        TaskActionType::KeyPress => {
            let vk = (p & 0xFFFF) as i32;
            let hold = p >> 16u64;
            proof {
                lemma_param_fields(p);
            }
            EditState::Key {
                vk,
                hold_ms: hold,
                hold_str: crate::text::fmt_u64(hold),
                recording: false,
                action_type: TaskActionType::KeyPress,
            }
        },
        TaskActionType::KeyDown | TaskActionType::KeyUp => {
            let zero = String::from_str("0");
            proof {
                reveal_strlit("0");
                assert(zero@ =~= seq!['0']);
            }
            EditState::Key {
                vk: p as i32,
                hold_ms: 0,
                hold_str: zero,
                recording: false,
                action_type: step.action,
            }
        },
        TaskActionType::MouseWheel => EditState::Wheel { up: p != 0 },
        TaskActionType::ImageMatch => {
            let (image_id, fail_id) = unpack_image_match(p);
            let fail_msg = msg_text(store, fail_id as u64);
            let mm = e & 0x100;
            let ig = e & 0x200;
            let win = e >> 10u32;
            let conf = e & 0xFF;
            proof {
                lemma_extra_fields(e);
            }
            let full_image = crate::config::load_image(store, image_id as u64);
            let window_title = msg_text(store, win as u64);
            proof {
                reveal_strlit("");
            }
            EditState::ImageMatch {
                image_id,
                new_path: String::new(),
                new_thumbnail: None,
                full_image,
                show_preview: false,
                preview_w: 0,
                preview_h: 0,
                confidence_str: crate::text::fmt_u64(conf as u64),
                fail_msg,
                move_mouse: mm != 0,
                ignore_failure: ig != 0,
                window_title,
            }
        },
        TaskActionType::Notify => EditState::Notify { msg: crate::config::load_msg(store, p) },
        TaskActionType::LostFocus => EditState::LostFocus,
        TaskActionType::ShowWindow => EditState::ShowWindow,
        TaskActionType::HideWindow => EditState::HideWindow,
        TaskActionType::OpenProgram => EditState::OpenProgram { msg: crate::config::load_msg(store, p) },
        TaskActionType::RandomDelay => {
            let lo = p as u32 as u64;
            let hi = p >> 32u64;
            proof {
                lemma_param_fields(p);
            }
            EditState::RandomDelay { min_str: crate::text::fmt_u64(lo), max_str: crate::text::fmt_u64(hi) }
        },
        TaskActionType::ComboKey => EditState::ComboKey { preset: crate::constants::find_combo_preset(p, e) },
        TaskActionType::WaitUntil => {
            let low = p as u32;
            proof {
                lemma_param_fields(p);
            }
            let mut minute = String::new();
            crate::text::push_dec2(&mut minute, (low % 60) as u64);
            assert(minute@ =~= crate::text::dec2(((p % 0x1_0000_0000) % 60) as nat));
            EditState::WaitUntil { hour_str: crate::text::fmt_u64((low / 60) as u64), minute_str: minute }
        },
        TaskActionType::WaitKey => {
            proof {
                lemma_extra_fields(e);
            }
            EditState::WaitKey {
                vk: p as i32,
                recording: false,
                terminate: crate::constants::waitkey_terminate_on_wrong(e),
                popup: crate::constants::waitkey_show_popup(e),
            }
        },
        TaskActionType::WaitInput => {
            proof {
                lemma_extra_fields(e);
            }
            EditState::WaitInput {
                msg: crate::config::load_msg(store, p),
                copy_input: crate::constants::waitinput_copy(e),
                ignore_fail: crate::constants::waitinput_ignore_fail(e),
                use_regex: crate::constants::waitinput_regex(e),
            }
        },
        TaskActionType::CopyText => EditState::CopyText { msg: crate::config::load_msg(store, p) },
        TaskActionType::Comment => {
            let count_str = if e == 0 {
                String::new()
            } else {
                crate::text::fmt_u64(e as u64)
            };
            EditState::Comment { msg: crate::config::load_msg(store, p), count_str }
        },
        TaskActionType::MouseMove => {
            let (x, y) = unpack_move(p);
            let lo: u32 = (p % 0x1_0000_0000) as u32;
            let hi: u32 = (p / 0x1_0000_0000) as u32;
            proof {
                lemma_i32_bits(x, lo);
                lemma_i32_bits(y, hi);
            }
            let rel_word = e >> 24u32;
            proof {
                lemma_extra_fields(e);
            }
            let rel = rel_word == 1;
            let preset: usize = if x == -2 {
                MOVE_PRESET_COUNT + 2
            } else if rel {
                MOVE_PRESET_COUNT + 1
            } else if x == -1 && y == -1 {
                0
            } else if x == 100 && y == 0 {
                1
            } else if x == -100 && y == 0 {
                2
            } else if x == 0 && y == 100 {
                3
            } else if x == 0 && y == -100 {
                4
            } else {
                MOVE_PRESET_COUNT
            };
            let window_title = if x == -2 {
                crate::config::load_msg(store, y as u64)
            } else {
                String::new()
            };
            let numbers = preset == MOVE_PRESET_COUNT || preset == MOVE_PRESET_COUNT + 1;
            let custom_x = if numbers {
                crate::text::fmt_i64(x as i64)
            } else {
                String::new()
            };
            let custom_y = if numbers {
                crate::text::fmt_i64(y as i64)
            } else {
                String::new()
            };
            EditState::Move {
                preset,
                secs_str: String::from_str(secs_text),
                custom_x,
                custom_y,
                window_title,
                is_relative: rel,
            }
        },
    }
}

// ---------------------------------------------------------------------
// Picking a kind in the add dialog
// ---------------------------------------------------------------------

/// Whether `r` is the form the add dialog shows once kind `kind` is picked;
/// `None` for the kinds added at once, without settings.
pub open spec fn add_form_of(kind: TaskActionType, r: Option<AddState>) -> bool {
    match kind {
        TaskActionType::MouseClick | TaskActionType::MouseDown | TaskActionType::MouseUp => r matches Some(
            AddState::ConfigClick { button, hold_ms, hold_str, action_type, jitter_str },
        ) && button == 0 && hold_ms == 0 && hold_str@ == "0"@ && action_type == kind && jitter_str@ == "0"@,
        TaskActionType::Delay => r matches Some(AddState::ConfigDelay { ms_str }) && ms_str@ == "100"@,
        TaskActionType::RandomDelay => r matches Some(AddState::ConfigRandomDelay { min_str, max_str }) && min_str@
            == "100"@ && max_str@ == "1000"@,
        TaskActionType::WaitUntil => r matches Some(AddState::ConfigWaitUntil { hour_str, minute_str }) && hour_str@
            == "12"@ && minute_str@ == "00"@,
        TaskActionType::ComboKey => r matches Some(AddState::ConfigComboKey { preset }) && preset == 0,
        TaskActionType::KeyPress | TaskActionType::KeyDown | TaskActionType::KeyUp => r matches Some(
            AddState::ConfigKey { vk, hold_ms, hold_str, recording, action_type },
        ) && vk == 0x20 && hold_ms == 0 && hold_str@ == "0"@ && !recording && action_type == kind,
        TaskActionType::MouseWheel => r matches Some(AddState::ConfigWheel { up }) && up,
        TaskActionType::MouseMove => r matches Some(
            AddState::ConfigMove { preset, secs_str, custom_x, custom_y, window_title, is_relative },
        ) && preset == 0 && secs_str@ == "0.0"@ && custom_x@.len() == 0 && custom_y@.len() == 0
            && window_title@.len() == 0 && !is_relative,
        TaskActionType::ImageMatch => r matches Some(
            AddState::ConfigImageMatch {
                path,
                confidence_str,
                fail_msg,
                move_mouse,
                ignore_failure,
                window_title,
                thumbnail,
                full_image,
                show_preview,
                preview_w,
                preview_h,
            },
        ) && path@.len() == 0 && confidence_str@ == "85"@ && fail_msg@.len() == 0 && move_mouse && !ignore_failure
            && window_title@.len() == 0 && thumbnail is None && full_image is None && !show_preview && preview_w == 0
            && preview_h == 0,
        TaskActionType::Notify => r matches Some(AddState::ConfigNotify { msg }) && msg@.len() == 0,
        TaskActionType::CopyText => r matches Some(AddState::ConfigCopyText { msg }) && msg@.len() == 0,
        TaskActionType::Comment => r matches Some(AddState::ConfigComment { msg, count_str }) && msg@.len() == 0
            && count_str@.len() == 0,
        TaskActionType::WaitKey => r matches Some(AddState::ConfigWaitKey { vk, recording, terminate, popup }) && vk
            == 0x20 && !recording && !terminate && !popup,
        TaskActionType::WaitInput => r matches Some(AddState::ConfigWaitInput { msg, copy_input, ignore_fail, use_regex })
            && msg@.len() == 0 && !copy_input && !ignore_fail && !use_regex,
        TaskActionType::OpenProgram => r matches Some(AddState::ConfigOpenProgram { msg }) && msg@.len() == 0,
        TaskActionType::LostFocus | TaskActionType::ShowWindow | TaskActionType::HideWindow => r is None,
    }
}

/// The form the add dialog shows once kind `kind` is picked; `None` for the
/// kinds added at once (see [`add_plain_step`]).
pub fn start_add(kind: TaskActionType) -> (r: Option<AddState>)
    ensures
        add_form_of(kind, r),
{
    match kind {
        TaskActionType::MouseClick | TaskActionType::MouseDown | TaskActionType::MouseUp => Some(
            AddState::ConfigClick {
                button: 0,
                hold_ms: 0,
                hold_str: String::from_str("0"),
                action_type: kind,
                jitter_str: String::from_str("0"),
            },
        ),
        TaskActionType::Delay => Some(AddState::ConfigDelay { ms_str: String::from_str("100") }),
        TaskActionType::RandomDelay => Some(
            AddState::ConfigRandomDelay { min_str: String::from_str("100"), max_str: String::from_str("1000") },
        ),
        TaskActionType::WaitUntil => Some(
            AddState::ConfigWaitUntil { hour_str: String::from_str("12"), minute_str: String::from_str("00") },
        ),
        TaskActionType::ComboKey => Some(AddState::ConfigComboKey { preset: 0 }),
        TaskActionType::KeyPress | TaskActionType::KeyDown | TaskActionType::KeyUp => Some(
            AddState::ConfigKey {
                vk: 0x20,
                hold_ms: 0,
                hold_str: String::from_str("0"),
                recording: false,
                action_type: kind,
            },
        ),
        TaskActionType::MouseWheel => Some(AddState::ConfigWheel { up: true }),
        TaskActionType::MouseMove => Some(
            AddState::ConfigMove {
                preset: 0,
                secs_str: String::from_str("0.0"),
                custom_x: String::new(),
                custom_y: String::new(),
                window_title: String::new(),
                is_relative: false,
            },
        ),
        TaskActionType::ImageMatch => Some(
            AddState::ConfigImageMatch {
                path: String::new(),
                confidence_str: String::from_str("85"),
                fail_msg: String::new(),
                move_mouse: true,
                ignore_failure: false,
                window_title: String::new(),
                thumbnail: None,
                full_image: None,
                show_preview: false,
                preview_w: 0,
                preview_h: 0,
            },
        ),
        TaskActionType::Notify => Some(AddState::ConfigNotify { msg: String::new() }),
        TaskActionType::CopyText => Some(AddState::ConfigCopyText { msg: String::new() }),
        TaskActionType::Comment => Some(AddState::ConfigComment { msg: String::new(), count_str: String::new() }),
        TaskActionType::WaitKey => Some(
            AddState::ConfigWaitKey { vk: 0x20, recording: false, terminate: false, popup: false },
        ),
        TaskActionType::WaitInput => Some(
            AddState::ConfigWaitInput { msg: String::new(), copy_input: false, ignore_fail: false, use_regex: false },
        ),
        TaskActionType::OpenProgram => Some(AddState::ConfigOpenProgram { msg: String::new() }),
        TaskActionType::LostFocus | TaskActionType::ShowWindow | TaskActionType::HideWindow => None,
    }
}

// ---------------------------------------------------------------------
// Laws of the dialogs
// ---------------------------------------------------------------------

proof fn lemma_click_bits(p: u64)
    ensures
        click_param((p % 256) as i32, p / 256) == p,
{
    let lo: u64 = p % 256;
    let h: u64 = p / 256;
    assert(((p % 256) as i32) as u64 == lo);
    assert((lo & 0xFFu64) | (h << 8u64) == p) by (bit_vector)
        requires
            lo == p % 256u64,
            h == p / 256u64,
    ;
}

proof fn lemma_key_bits(p: u64)
    ensures
        key_param((p % 0x10000) as i32, p / 0x10000) == p,
{
    let lo: u64 = p % 0x10000;
    let h: u64 = p / 0x10000;
    assert(((p % 0x10000) as i32) as u64 == lo);
    assert((lo & 0xFFFFu64) | (h << 16u64) == p) by (bit_vector)
        requires
            lo == p % 0x10000u64,
            h == p / 0x10000u64,
    ;
}

/// Confirming the edit dialog as it opened leaves a click, a key press, a
/// wheel turn (parameter 0 or 1) or a delay (1 to 60000 ms) as it was,
/// and the store untouched.
pub proof fn lemma_unchanged_form_keeps_step(
    v: StoreView,
    step: TaskStep,
    secs: Seq<char>,
    st: EditState,
    move_ms: u32,
    image: Option<Seq<u8>>,
)
    requires
        edit_form_of(v, step, secs, st),
        step.action == TaskActionType::MouseClick || step.action == TaskActionType::KeyPress || (step.action
            == TaskActionType::MouseWheel && step.param <= 1) || (step.action == TaskActionType::Delay && 1 <= step.param
            <= 60000),
    ensures
        apply_edit_spec(v, step, st, move_ms, image) == Some((v, step)),
{
    if step.action == TaskActionType::MouseClick {
        lemma_click_bits(step.param);
    } else if step.action == TaskActionType::KeyPress {
        lemma_key_bits(step.param);
    } else if step.action == TaskActionType::Delay {
        crate::text::lemma_parse_dec(step.param as nat, u64::MAX as nat);
    }
}

proof fn lemma_random_bits(a: u64, b: u64)
    requires
        a <= b <= 60000,
    ensures
        (a | (b << 32u64)) % 0x1_0000_0000 == a,
        (a | (b << 32u64)) / 0x1_0000_0000 == b,
{
    assert((a | (b << 32u64)) % 0x1_0000_0000u64 == a && (a | (b << 32u64)) / 0x1_0000_0000u64 == b) by (bit_vector)
        requires
            a <= 60000u64,
            b <= 60000u64,
    ;
}

/// A random delay set in either dialog keeps its bounds in order, each
/// between 1 and 60000 ms, whatever was typed.
pub proof fn lemma_random_delay_bounds(v: StoreView, step: TaskStep, min_str: String, max_str: String, move_ms: u32, image: Option<Seq<u8>>)
    ensures
        apply_edit_spec(v, step, EditState::RandomDelay { min_str, max_str }, move_ms, image) matches Some((_, s)) && 1
            <= s.param % 0x1_0000_0000 <= s.param / 0x1_0000_0000 <= 60000,
        add_spec(v, AddState::ConfigRandomDelay { min_str, max_str }, move_ms, image) matches Some((_, s)) && 1
            <= s.param % 0x1_0000_0000 <= s.param / 0x1_0000_0000 <= 60000,
{
    let a = clamp_delay(parsed_or(min_str@, u64::MAX as nat, 100));
    let b = clamp_delay(parsed_or(max_str@, u64::MAX as nat, 1000));
    if a <= b {
        lemma_random_bits(a, b);
    } else {
        lemma_random_bits(b, a);
    }
}

/// The message of a notification, a clipboard text or a wait for text, as
/// set in the edit dialog, is what the stored message then reads.
pub proof fn lemma_edited_message_reads_back(v: StoreView, step: TaskStep, msg: String, move_ms: u32, image: Option<Seq<u8>>)
    ensures
        apply_edit_spec(v, step, EditState::Notify { msg }, move_ms, image) matches Some((v2, s))
            && crate::config::load_msg_spec(v2, s.param) == msg@,
        apply_edit_spec(v, step, EditState::CopyText { msg }, move_ms, image) matches Some((v2, s))
            && crate::config::load_msg_spec(v2, s.param) == msg@,
{
    crate::config::lemma_msg_roundtrip(drop_msg(v, step.param), msg@);
}

/// The message of a new notification, clipboard text, wait for text or
/// program path is what the stored message then reads.
pub proof fn lemma_added_message_reads_back(v: StoreView, msg: String, move_ms: u32, image: Option<Seq<u8>>)
    requires
        msg@.len() > 0,
    ensures
        add_spec(v, AddState::ConfigNotify { msg }, move_ms, image) matches Some((v2, s))
            && crate::config::load_msg_spec(v2, s.param) == msg@,
        add_spec(v, AddState::ConfigOpenProgram { msg }, move_ms, image) matches Some((v2, s))
            && crate::config::load_msg_spec(v2, s.param) == msg@,
{
    crate::config::lemma_msg_roundtrip(v, msg@);
}

proof fn lemma_two_flags(a: u32, b: u32)
    by (bit_vector)
    requires
        a == 0 || a == 1,
        b == 0 || b == 2,
    ensures
        ((a | b) & 1 != 0) == (a == 1),
        ((a | b) & 2 != 0) == (b == 2),
        ((a | b) % 2 == 1) == (a == 1),
        (((a | b) / 2) % 2 == 1) == (b == 2),
{
}

/// A wheel form keeps the direction chosen in it: confirming it (in
/// either dialog) leaves a wheel step whose parameter is not 0 exactly when
/// "up" was chosen and touches no stored record, and running that step
/// turns the wheel that way.
pub proof fn lemma_wheel_forms_keep_direction(
    v: StoreView,
    step: TaskStep,
    up: bool,
    move_ms: u32,
    image: Option<Seq<u8>>,
    p: Picks,
)
    requires
        step.action == TaskActionType::MouseWheel,
    ensures
        apply_edit_spec(v, step, EditState::Wheel { up }, move_ms, image) matches Some((w, s)) && w == v && s.action
            == TaskActionType::MouseWheel && (s.param != 0) == up && plan_spec(s, p).1[0] == (Command::Wheel { up }),
        add_spec(v, AddState::ConfigWheel { up }, move_ms, image) matches Some((w, s)) && w == v && s.action
            == TaskActionType::MouseWheel && (s.param != 0) == up && plan_spec(s, p).1[0] == (Command::Wheel { up }),
{
}

/// A wait-for-key form keeps the key and the two options ticked in it:
/// confirming it (in either dialog) gives a wait for that key whose
/// "stop on a wrong key" and "show a prompt" bits read back as ticked, and
/// running the step waits for that key with those options.
pub proof fn lemma_wait_key_forms_keep_options(
    v: StoreView,
    step: TaskStep,
    vk: i32,
    recording: bool,
    terminate: bool,
    popup: bool,
    move_ms: u32,
    image: Option<Seq<u8>>,
    p: Picks,
)
    ensures
        apply_edit_spec(v, step, EditState::WaitKey { vk, recording, terminate, popup }, move_ms, image) matches Some(
            (w, s),
        ) && w == v && s.action == TaskActionType::WaitKey && s.param == vk as u64 && (s.extra & WAITKEY_TERMINATE != 0)
            == terminate && (s.extra & WAITKEY_POPUP != 0) == popup && plan_spec(s, p).0 == (StepKind::WaitKey {
            vk,
            terminate,
            popup,
        }),
        add_spec(v, AddState::ConfigWaitKey { vk, recording, terminate, popup }, move_ms, image) matches Some((w, s))
            && w == v && s.action == TaskActionType::WaitKey && s.param == vk as u64 && (s.extra & WAITKEY_TERMINATE
            != 0) == terminate && (s.extra & WAITKEY_POPUP != 0) == popup && plan_spec(s, p).0 == (StepKind::WaitKey {
            vk,
            terminate,
            popup,
        }),
{
    let a: u32 = if terminate { 1 } else { 0 };
    let b: u32 = if popup { 2 } else { 0 };
    lemma_two_flags(a, b);
    assert(((vk as u64) as i32) == vk) by (bit_vector);
}

proof fn lemma_three_flags(a: u32, b: u32, c: u32)
    by (bit_vector)
    requires
        a == 0 || a == 1,
        b == 0 || b == 2,
        c == 0 || c == 4,
    ensures
        ((a | b | c) & 1 != 0) == (a == 1),
        ((a | b | c) & 2 != 0) == (b == 2),
        ((a | b | c) & 4 != 0) == (c == 4),
        ((a | b | c) % 2 == 1) == (a == 1),
        (((a | b | c) / 2) % 2 == 1) == (b == 2),
        (((a | b | c) / 4) % 2 == 1) == (c == 4),
{
}

/// A wait-for-text form keeps its text and the three options ticked in
/// it: confirming it (in the edit dialog, or in the add dialog with a
/// non-empty text) gives a wait whose stored message reads back as the
/// text typed, whose copy, ignore-failure and regex bits read back as
/// ticked, and which runs as a wait for that message with those options.
pub proof fn lemma_wait_input_forms_keep_options(
    v: StoreView,
    step: TaskStep,
    msg: String,
    copy_input: bool,
    ignore_fail: bool,
    use_regex: bool,
    move_ms: u32,
    image: Option<Seq<u8>>,
    p: Picks,
)
    ensures
        apply_edit_spec(v, step, EditState::WaitInput { msg, copy_input, ignore_fail, use_regex }, move_ms, image) matches Some(
            (w, s),
        ) && s.action == TaskActionType::WaitInput && crate::config::load_msg_spec(w, s.param) == msg@ && (s.extra
            & WAITINPUT_COPY != 0) == copy_input && (s.extra & WAITINPUT_IGNORE_FAIL != 0) == ignore_fail && (s.extra
            & WAITINPUT_REGEX != 0) == use_regex && plan_spec(s, p).0 == (StepKind::WaitInput {
            msg_id: s.param,
            copy: copy_input,
            ignore: ignore_fail,
            regex: use_regex,
        }),
        msg@.len() > 0 ==> (add_spec(v, AddState::ConfigWaitInput { msg, copy_input, ignore_fail, use_regex }, move_ms, image) matches Some(
            (w, s),
        ) && s.action == TaskActionType::WaitInput && crate::config::load_msg_spec(w, s.param) == msg@ && (s.extra
            & WAITINPUT_COPY != 0) == copy_input && (s.extra & WAITINPUT_IGNORE_FAIL != 0) == ignore_fail && (s.extra
            & WAITINPUT_REGEX != 0) == use_regex && plan_spec(s, p).0 == (StepKind::WaitInput {
            msg_id: s.param,
            copy: copy_input,
            ignore: ignore_fail,
            regex: use_regex,
        })),
{
    let a: u32 = if copy_input { 1 } else { 0 };
    let b: u32 = if ignore_fail { 2 } else { 0 };
    let c: u32 = if use_regex { 4 } else { 0 };
    lemma_three_flags(a, b, c);
    crate::config::lemma_msg_roundtrip(drop_msg(v, step.param), msg@);
    crate::config::lemma_msg_roundtrip(v, msg@);
}

} // verus!
