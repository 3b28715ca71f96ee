//! The one-line description of a task step shown in the task list.
//!
//! Some kinds show a stored message (a window title, a notification text,
//! a path...): the caller reads message [`step_msg_id`] from the store and
//! hands its text in. A timed move shows its duration in seconds with one
//! decimal, rendered by the caller from a floating-point division.

use vstd::prelude::*;
use crate::constants::{
    lemma_extra_fields, lemma_i32_bits, lemma_param_fields,
    TaskActionType, TaskStep, byte_of, combo_keys_of, combo_preset, combo_preset_of, find_combo_preset,
    spec_combo_keys, spec_combo_label, spec_combo_name, unpack_combo, unpack_move, waitinput_copy,
    waitinput_ignore_fail, waitinput_regex, waitkey_show_popup, waitkey_terminate_on_wrong,
    COMBO_PRESET_COUNT,
};
use crate::keys::{pick, vk_name, vk_name_spec};
use crate::lang::{t, tf, Lang};
use crate::text::{
    byte_len, byte_prefix, char_len, dec, dec2, dec_signed, is_boundary, prefix_bytes, prefix_chars,
    push_dec, push_dec2, push_dec_signed, push_str, replace, replace_all, utf8_len,
};

verus! {

/// `tmpl` with every occurrence of `key` replaced by `val`.
pub open spec fn fill(tmpl: Seq<char>, key: Seq<char>, val: Seq<char>) -> Seq<char> {
    replace_all(tmpl, key, val)
}

/// The id of the stored message a step's description shows, if any.
pub open spec fn step_msg_id_spec(step: TaskStep) -> Option<u64> {
    match step.action {
        TaskActionType::MouseMove => if step.param % 0x1_0000_0000 == 0xFFFF_FFFE {
            Some(((step.param / 0x1_0000_0000) as u32 as i32) as i64 as u64)
        } else {
            None
        },
        TaskActionType::ImageMatch => if step.extra / 1024 != 0 {
            Some((step.extra / 1024) as u64)
        } else {
            None
        },
        TaskActionType::Notify | TaskActionType::CopyText | TaskActionType::WaitInput
        | TaskActionType::Comment | TaskActionType::OpenProgram => Some(step.param),
        _ => None,
    }
}

/// The id of the stored message a step's description shows, if any: the
/// window title of a move to a window, the window title of an image match
/// restricted to a window, or the text of a notification, copy, wait-input,
/// comment or open-program step.
pub fn step_msg_id(step: &TaskStep) -> (r: Option<u64>)
    ensures
        r == step_msg_id_spec(*step),
{
    match step.action {
        TaskActionType::MouseMove => {
            let (x, y) = unpack_move(step.param);
            if x == -2 {
                proof {
                    lemma_i32_bits(x, 0);
                }
                proof {
                    lemma_i32_bits(y, 0);
                }
                Some(y as i64 as u64)
            } else {
                proof {
                    lemma_i32_bits(x, 0);
                }
                None
            }
        },
        TaskActionType::ImageMatch => {
            let w = step.extra >> 10u32;
            let se = step.extra;
            proof {
                lemma_extra_fields(se);
            }
            if w != 0 {
                Some(w as u64)
            } else {
                None
            }
        },
        TaskActionType::Notify | TaskActionType::CopyText | TaskActionType::WaitInput
        | TaskActionType::Comment | TaskActionType::OpenProgram => Some(step.param),
        _ => None,
    }
}

/// Whether `&msg[..n]` is taken only where `n` is a character boundary
/// (it is taken when the message is longer than `n` bytes).
pub open spec fn cut_ok(msg: Seq<char>, n: int) -> bool {
    utf8_len(msg) > n ==> is_boundary(msg, n)
}

/// The inputs on which the description is defined: a shown message is cut
/// after 12, 20, 25 or 30 bytes, which must fall on a character boundary.
pub open spec fn describable(step: TaskStep, msg: Seq<char>) -> bool {
    match step.action {
        TaskActionType::MouseMove => step.param % 0x1_0000_0000 == 0xFFFF_FFFE ==> cut_ok(msg, 12),
        TaskActionType::Notify | TaskActionType::CopyText | TaskActionType::WaitInput => cut_ok(msg, 20),
        TaskActionType::Comment => cut_ok(msg, 25),
        TaskActionType::OpenProgram => msg.len() > 0 ==> cut_ok(msg, 30),
        _ => true,
    }
}

fn cut_is_ok(msg: &str, n: usize) -> (r: bool)
    ensures
        r == cut_ok(msg@, n as int),
{
    if byte_len(msg) > n {
        msg.is_char_boundary(n)
    } else {
        true
    }
}

/// Whether a step and its message can be described (see [`describable`]).
pub fn can_describe(step: &TaskStep, msg: &str) -> (r: bool)
    ensures
        r == describable(*step, msg@),
{
    match step.action {
        TaskActionType::MouseMove => {
            let (x, _y) = unpack_move(step.param);
            if x == -2 {
                proof {
                    lemma_i32_bits(x, 0);
                }
                cut_is_ok(msg, 12)
            } else {
                proof {
                    lemma_i32_bits(x, 0);
                }
                true
            }
        },
        TaskActionType::Notify | TaskActionType::CopyText | TaskActionType::WaitInput => cut_is_ok(msg, 20),
        TaskActionType::Comment => cut_is_ok(msg, 25),
        TaskActionType::OpenProgram => {
            if char_len(msg) > 0 {
                cut_is_ok(msg, 30)
            } else {
                true
            }
        },
        _ => true,
    }
}

// ---------------------------------------------------------------------
// Per-kind descriptions
// ---------------------------------------------------------------------

/// The button word for a mouse button code: 1 right, 2 middle, else left.
pub open spec fn button_word(lang: Lang, btn: int) -> Seq<char> {
    if btn == 1 {
        pick(lang, "右键"@, "Right"@)
    } else if btn == 2 {
        pick(lang, "中键"@, "Middle"@)
    } else {
        pick(lang, "左键"@, "Left"@)
    }
}

fn button_text(lang: Lang, btn: i32) -> (r: &'static str)
    ensures
        r@ == button_word(lang, btn as int),
{
    if btn == 1 {
        t(lang, "右键", "Right")
    } else if btn == 2 {
        t(lang, "中键", "Middle")
    } else {
        t(lang, "左键", "Left")
    }
}

/// The description of a click: long press with its hold time when the hold
/// time (`param >> 8`) is not 0, and the jitter radius when `extra` is not 0.
pub open spec fn click_desc(step: TaskStep, lang: Lang) -> Seq<char> {
    let btn = button_word(lang, (step.param % 256) as int);
    let hold = step.param / 256;
    let base = if hold > 0 {
        fill(
            fill(pick(lang, "鼠标长按{btn} {hold_ms}ms"@, "Mouse long-press {btn} {hold_ms}ms"@), "{btn}"@, btn),
            "{hold_ms}"@,
            dec(hold as nat),
        )
    } else {
        fill(pick(lang, "鼠标{btn}点击"@, "Mouse {btn} click"@), "{btn}"@, btn)
    };
    if step.extra > 0 {
        base + " ±"@ + dec(step.extra as nat) + "px"@
    } else {
        base
    }
}

fn describe_click(step: &TaskStep, lang: Lang) -> (r: String)
    ensures
        r@ == click_desc(*step, lang),
{
    proof {
        reveal_strlit("{btn}");
        reveal_strlit("{hold_ms}");
    }
    let b = (step.param & 0xFF) as i32;
    let sp = step.param;
    proof {
        lemma_param_fields(sp);
    }
    let btn = button_text(lang, b);
    let hold = step.param >> 8u64;
    let sp = step.param;
    proof {
        lemma_param_fields(sp);
    }
    let mut base = if hold > 0 {
        let tmpl = tf(lang, "鼠标长按{btn} {hold_ms}ms", "Mouse long-press {btn} {hold_ms}ms");
        let a = replace(tmpl, "{btn}", btn);
        let mut h = String::new();
        push_dec(&mut h, hold);
        assert(h@ =~= dec(hold as nat));
        replace(a.as_str(), "{hold_ms}", h.as_str())
    } else {
        let tmpl = tf(lang, "鼠标{btn}点击", "Mouse {btn} click");
        replace(tmpl, "{btn}", btn)
    };
    if step.extra > 0 {
        push_str(&mut base, " ±");
        push_dec(&mut base, step.extra as u64);
        push_str(&mut base, "px");
    }
    base
}

/// The description of a delay.
pub open spec fn delay_desc(step: TaskStep, lang: Lang) -> Seq<char> {
    fill(pick(lang, "延迟 {ms} ms"@, "Delay {ms} ms"@), "{ms}"@, dec(step.param as nat))
}

fn describe_delay(step: &TaskStep, lang: Lang) -> (r: String)
    ensures
        r@ == delay_desc(*step, lang),
{
    proof {
        reveal_strlit("{ms}");
    }
    let mut v = String::new();
    push_dec(&mut v, step.param);
    assert(v@ =~= dec(step.param as nat));
    replace(tf(lang, "延迟 {ms} ms", "Delay {ms} ms"), "{ms}", v.as_str())
}

/// The description of a key press: the key is `param & 0xFFFF`, the hold
/// time `param >> 16`.
pub open spec fn keypress_desc(step: TaskStep, lang: Lang) -> Seq<char> {
    let vk = (step.param % 0x10000) as i32;
    let hold = step.param / 0x10000;
    let key = vk_name_spec(vk, lang);
    if hold > 0 {
        fill(
            fill(pick(lang, "键盘长按{key} {hold_ms}ms"@, "Key long-press {key} {hold_ms}ms"@), "{key}"@, key),
            "{hold_ms}"@,
            dec(hold as nat),
        )
    } else {
        fill(pick(lang, "按键 {key}"@, "Key {key}"@), "{key}"@, key)
    }
}

fn describe_keypress(step: &TaskStep, lang: Lang) -> (r: String)
    ensures
        r@ == keypress_desc(*step, lang),
{
    proof {
        reveal_strlit("{key}");
        reveal_strlit("{hold_ms}");
    }
    let vk = (step.param & 0xFFFF) as i32;
    let sp = step.param;
    proof {
        lemma_param_fields(sp);
    }
    let hold = step.param >> 16u64;
    let sp = step.param;
    proof {
        lemma_param_fields(sp);
    }
    let key = vk_name(vk, lang);
    if hold > 0 {
        let a = replace(tf(lang, "键盘长按{key} {hold_ms}ms", "Key long-press {key} {hold_ms}ms"), "{key}", key.as_str());
        let mut h = String::new();
        push_dec(&mut h, hold);
        assert(h@ =~= dec(hold as nat));
        replace(a.as_str(), "{hold_ms}", h.as_str())
    } else {
        replace(tf(lang, "按键 {key}", "Key {key}"), "{key}", key.as_str())
    }
}

/// The description of a mouse button press or release (`down` picks which):
/// the button is `param as i32`, the jitter radius `extra`.
pub open spec fn button_desc(step: TaskStep, lang: Lang, down: bool) -> Seq<char> {
    let btn = button_word(lang, (step.param as i32) as int);
    if step.extra > 0 {
        let tmpl = if down {
            pick(lang, "鼠标{btn}按下 ±{jitter}px"@, "Mouse {btn} down ±{jitter}px"@)
        } else {
            pick(lang, "鼠标{btn}松开 ±{jitter}px"@, "Mouse {btn} up ±{jitter}px"@)
        };
        fill(fill(tmpl, "{btn}"@, btn), "{jitter}"@, dec(step.extra as nat))
    } else {
        let tmpl = if down {
            pick(lang, "鼠标{btn}按下"@, "Mouse {btn} down"@)
        } else {
            pick(lang, "鼠标{btn}松开"@, "Mouse {btn} up"@)
        };
        fill(tmpl, "{btn}"@, btn)
    }
}

fn describe_button(step: &TaskStep, lang: Lang, down: bool) -> (r: String)
    ensures
        r@ == button_desc(*step, lang, down),
{
    proof {
        reveal_strlit("{btn}");
        reveal_strlit("{jitter}");
    }
    let btn = button_text(lang, step.param as i32);
    if step.extra > 0 {
        let tmpl = if down {
            tf(lang, "鼠标{btn}按下 ±{jitter}px", "Mouse {btn} down ±{jitter}px")
        } else {
            tf(lang, "鼠标{btn}松开 ±{jitter}px", "Mouse {btn} up ±{jitter}px")
        };
        let a = replace(tmpl, "{btn}", btn);
        let mut j = String::new();
        push_dec(&mut j, step.extra as u64);
        assert(j@ =~= dec(step.extra as nat));
        replace(a.as_str(), "{jitter}", j.as_str())
    } else {
        let tmpl = if down {
            tf(lang, "鼠标{btn}按下", "Mouse {btn} down")
        } else {
            tf(lang, "鼠标{btn}松开", "Mouse {btn} up")
        };
        replace(tmpl, "{btn}", btn)
    }
}

/// The description of a key down or key up (`down` picks which); the key is
/// `param as i32`.
pub open spec fn keyedge_desc(step: TaskStep, lang: Lang, down: bool) -> Seq<char> {
    let tmpl = if down {
        pick(lang, "按下按键 {key}"@, "Key down {key}"@)
    } else {
        pick(lang, "松开按键 {key}"@, "Key up {key}"@)
    };
    fill(tmpl, "{key}"@, vk_name_spec(step.param as i32, lang))
}

fn describe_keyedge(step: &TaskStep, lang: Lang, down: bool) -> (r: String)
    ensures
        r@ == keyedge_desc(*step, lang, down),
{
    proof {
        reveal_strlit("{key}");
    }
    let tmpl = if down {
        tf(lang, "按下按键 {key}", "Key down {key}")
    } else {
        tf(lang, "松开按键 {key}", "Key up {key}")
    };
    let key = vk_name(step.param as i32, lang);
    replace(tmpl, "{key}", key.as_str())
}

/// The move target: a window (its title cut after 12 bytes), the screen
/// centre, one of the four presets, an offset or a position.
pub open spec fn move_target(step: TaskStep, lang: Lang, msg: Seq<char>) -> Seq<char> {
    let x = (step.param % 0x1_0000_0000) as u32 as i32;
    let y = (step.param / 0x1_0000_0000) as u32 as i32;
    let is_relative = step.extra / 0x100_0000 == 1;
    if x == -2 {
        if utf8_len(msg) > 12 {
            fill(pick(lang, "窗口: {title}..."@, "Window: {title}..."@), "{title}"@, byte_prefix(msg, 12))
        } else {
            fill(pick(lang, "窗口: {title}"@, "Window: {title}"@), "{title}"@, msg)
        }
    } else if x == -1 && y == -1 {
        pick(lang, "居中"@, "Center"@)
    } else if x == 100 && y == 0 {
        "→"@
    } else if x == -100 && y == 0 {
        "←"@
    } else if x == 0 && y == 100 {
        "↓"@
    } else if x == 0 && y == -100 {
        "↑"@
    } else if is_relative {
        fill(fill(pick(lang, "距({x}, {y})"@, "Offset({x}, {y})"@), "{x}"@, dec_signed(x as int)), "{y}"@, dec_signed(y as int))
    } else {
        fill(fill(pick(lang, "坐标({x}, {y})"@, "Pos({x}, {y})"@), "{x}"@, dec_signed(x as int)), "{y}"@, dec_signed(y as int))
    }
}

/// The description of a move; `secs` is the duration (`extra & 0xFFFFFF`
/// milliseconds) in seconds with one decimal, shown when it is not 0.
pub open spec fn move_desc(step: TaskStep, lang: Lang, msg: Seq<char>, secs: Seq<char>) -> Seq<char> {
    let target = move_target(step, lang, msg);
    if step.extra % 0x100_0000 > 0 {
        fill(fill(pick(lang, "移动 {target} {secs}s"@, "Move {target} {secs}s"@), "{target}"@, target), "{secs}"@, secs)
    } else {
        fill(pick(lang, "移动 {target}"@, "Move {target}"@), "{target}"@, target)
    }
}

fn signed_text(v: i32) -> (r: String)
    ensures
        r@ == dec_signed(v as int),
{
    let mut s = String::new();
    push_dec_signed(&mut s, v as i64);
    assert(s@ =~= dec_signed(v as int));
    s
}

fn describe_move_target(step: &TaskStep, lang: Lang, msg: &str) -> (r: String)
    requires
        describable(*step, msg@),
        step.action == TaskActionType::MouseMove,
    ensures
        r@ == move_target(*step, lang, msg@),
{
    proof {
        reveal_strlit("{title}");
        reveal_strlit("{x}");
        reveal_strlit("{y}");
    }
    let (x, y) = unpack_move(step.param);
    assert(x == (step.param % 0x1_0000_0000) as u32 as i32 && y == (step.param / 0x1_0000_0000) as u32 as i32) by {
        lemma_i32_bits(x, 0);
        lemma_i32_bits(y, 0);
    }
    let rel = step.extra >> 24u32;
    let se = step.extra;
    proof {
        lemma_extra_fields(se);
    }
    if x == -2 {
        proof {
            lemma_i32_bits(x, 0);
        }
        if byte_len(msg) > 12 {
            let cut = prefix_bytes(msg, 12);
            replace(tf(lang, "窗口: {title}...", "Window: {title}..."), "{title}", cut)
        } else {
            replace(tf(lang, "窗口: {title}", "Window: {title}"), "{title}", msg)
        }
    } else if x == -1 && y == -1 {
        String::from_str(t(lang, "居中", "Center"))
    } else if x == 100 && y == 0 {
        String::from_str("→")
    } else if x == -100 && y == 0 {
        String::from_str("←")
    } else if x == 0 && y == 100 {
        String::from_str("↓")
    } else if x == 0 && y == -100 {
        String::from_str("↑")
    } else {
        let tmpl = if rel == 1 {
            tf(lang, "距({x}, {y})", "Offset({x}, {y})")
        } else {
            tf(lang, "坐标({x}, {y})", "Pos({x}, {y})")
        };
        let xs = signed_text(x);
        let ys = signed_text(y);
        let a = replace(tmpl, "{x}", xs.as_str());
        replace(a.as_str(), "{y}", ys.as_str())
    }
}

fn describe_move(step: &TaskStep, lang: Lang, msg: &str, secs: &str) -> (r: String)
    requires
        describable(*step, msg@),
        step.action == TaskActionType::MouseMove,
    ensures
        r@ == move_desc(*step, lang, msg@, secs@),
{
    proof {
        reveal_strlit("{target}");
        reveal_strlit("{secs}");
    }
    let target = describe_move_target(step, lang, msg);
    let duration = step.extra & 0xFF_FFFF;
    let se = step.extra;
    proof {
        lemma_extra_fields(se);
    }
    if duration > 0 {
        let a = replace(tf(lang, "移动 {target} {secs}s", "Move {target} {secs}s"), "{target}", target.as_str());
        replace(a.as_str(), "{secs}", secs)
    } else {
        replace(tf(lang, "移动 {target}", "Move {target}"), "{target}", target.as_str())
    }
}

/// The description of an image match: the confidence (`extra & 0xFF`, at
/// least 1), the window title cut to 8 characters when the match is
/// restricted to a window (`extra >> 10`) and the title is not empty, and
/// the ignore-failure flag (`extra & 0x200`).
pub open spec fn image_desc(step: TaskStep, lang: Lang, msg: Seq<char>) -> Seq<char> {
    let c = step.extra % 256;
    let conf: nat = if c >= 1 {
        c as nat
    } else {
        1
    };
    let base = fill(pick(lang, "识图 (可信≥{conf}%)"@, "Match (conf≥{conf}%)"@), "{conf}"@, dec(conf));
    let with_win = if step.extra / 1024 != 0 && msg.len() > 0 {
        let short = if msg.len() > 8 {
            msg.take(8) + "..."@
        } else {
            msg
        };
        base + " ["@ + short + "]"@
    } else {
        base
    };
    if (step.extra / 512) % 2 == 1 {
        with_win + pick(lang, " 忽略失败"@, " ignore fail"@)
    } else {
        with_win
    }
}

fn describe_image(step: &TaskStep, lang: Lang, msg: &str) -> (r: String)
    ensures
        r@ == image_desc(*step, lang, msg@),
{
    proof {
        reveal_strlit("{conf}");
    }
    let c = step.extra & 0xFF;
    let se = step.extra;
    proof {
        lemma_extra_fields(se);
    }
    let conf = if c >= 1 {
        c
    } else {
        1
    };
    let mut v = String::new();
    push_dec(&mut v, conf as u64);
    assert(v@ =~= dec(conf as nat));
    let mut desc = replace(tf(lang, "识图 (可信≥{conf}%)", "Match (conf≥{conf}%)"), "{conf}", v.as_str());
    let w = step.extra >> 10u32;
    let se = step.extra;
    proof {
        lemma_extra_fields(se);
    }
    if w != 0 {
        let n = char_len(msg);
        if n > 0 {
            let mut short = prefix_chars(msg, 8);
            if n > 8 {
                push_str(&mut short, "...");
            }
            push_str(&mut desc, " [");
            push_str(&mut desc, short.as_str());
            push_str(&mut desc, "]");
        }
    }
    let ig = step.extra & 0x200;
    let se = step.extra;
    proof {
        lemma_extra_fields(se);
    }
    if ig != 0 {
        push_str(&mut desc, t(lang, " 忽略失败", " ignore fail"));
    }
    desc
}

/// A message shown after a label, cut after 20 bytes with "..." appended.
pub open spec fn shown_msg20(cn: Seq<char>, cn_cut: Seq<char>, en: Seq<char>, en_cut: Seq<char>, lang: Lang, msg: Seq<char>) -> Seq<char> {
    if utf8_len(msg) > 20 {
        fill(pick(lang, cn_cut, en_cut), "{msg}"@, byte_prefix(msg, 20))
    } else {
        fill(pick(lang, cn, en), "{msg}"@, msg)
    }
}

fn show_msg20(cn: &str, cn_cut: &str, en: &str, en_cut: &str, lang: Lang, msg: &str) -> (r: String)
    requires
        cut_ok(msg@, 20),
    ensures
        r@ == shown_msg20(cn@, cn_cut@, en@, en_cut@, lang, msg@),
{
    proof {
        reveal_strlit("{msg}");
    }
    if byte_len(msg) > 20 {
        let cut = prefix_bytes(msg, 20);
        replace(tf(lang, cn_cut, en_cut), "{msg}", cut)
    } else {
        replace(tf(lang, cn, en), "{msg}", msg)
    }
}

/// The description of a random delay: the bounds are the low and the high
/// 32 bits of `param`.
pub open spec fn random_delay_desc(step: TaskStep, lang: Lang) -> Seq<char> {
    fill(
        fill(pick(lang, "随机延迟 {min}~{max}ms"@, "Random {min}~{max}ms"@), "{min}"@, dec((step.param % 0x1_0000_0000) as nat)),
        "{max}"@,
        dec((step.param / 0x1_0000_0000) as nat),
    )
}

fn describe_random_delay(step: &TaskStep, lang: Lang) -> (r: String)
    ensures
        r@ == random_delay_desc(*step, lang),
{
    proof {
        reveal_strlit("{min}");
        reveal_strlit("{max}");
    }
    let lo = step.param as u32 as u64;
    let hi = step.param >> 32u64;
    let sp = step.param;
    proof {
        lemma_param_fields(sp);
    }
    let mut a = String::new();
    push_dec(&mut a, lo);
    assert(a@ =~= dec(lo as nat));
    let mut b = String::new();
    push_dec(&mut b, hi);
    assert(b@ =~= dec(hi as nat));
    let x = replace(tf(lang, "随机延迟 {min}~{max}ms", "Random {min}~{max}ms"), "{min}", a.as_str());
    replace(x.as_str(), "{max}", b.as_str())
}

/// The description of a combo: the name and key label of the preset it is
/// shown as (see [`combo_preset_of`]).
pub open spec fn combo_desc(step: TaskStep, lang: Lang) -> Seq<char> {
    let i = combo_preset_of(combo_keys_of(step.param, step.extra));
    fill(
        fill(pick(lang, "组合按键: {name} ({keys})"@, "Combo: {name} ({keys})"@), "{name}"@, spec_combo_name(i)),
        "{keys}"@,
        spec_combo_label(i),
    )
}

fn describe_combo(step: &TaskStep, lang: Lang) -> (r: String)
    ensures
        r@ == combo_desc(*step, lang),
{
    proof {
        reveal_strlit("{name}");
        reveal_strlit("{keys}");
    }
    let i = match find_combo_preset(step.param, step.extra) {
        Some(i) => i,
        None => 0,
    };
    let p = combo_preset(i);
    let a = replace(tf(lang, "组合按键: {name} ({keys})", "Combo: {name} ({keys})"), "{name}", p.name);
    replace(a.as_str(), "{keys}", p.keys_label)
}

/// The description of a wait until a time of day: `param` is the minute of
/// the day, shown as `h:mm`.
pub open spec fn wait_until_desc(step: TaskStep, lang: Lang) -> Seq<char> {
    let total = (step.param % 0x1_0000_0000) as nat;
    fill(fill(pick(lang, "整点延迟 {h}:{mm}"@, "Wait {h}:{mm}"@), "{h}"@, dec(total / 60)), "{mm}"@, dec2(total % 60))
}

fn describe_wait_until(step: &TaskStep, lang: Lang) -> (r: String)
    ensures
        r@ == wait_until_desc(*step, lang),
{
    proof {
        reveal_strlit("{h}");
        reveal_strlit("{mm}");
    }
    let total = step.param as u32;
    let sp = step.param;
    proof {
        lemma_param_fields(sp);
    }
    let mut h = String::new();
    push_dec(&mut h, (total / 60) as u64);
    assert(h@ =~= dec((total / 60) as nat));
    let mut m = String::new();
    push_dec2(&mut m, (total % 60) as u64);
    assert(m@ =~= dec2((total % 60) as nat));
    let a = replace(tf(lang, "整点延迟 {h}:{mm}", "Wait {h}:{mm}"), "{h}", h.as_str());
    replace(a.as_str(), "{mm}", m.as_str())
}

/// The description of a wait for a key: the key's name, then the
/// stop-on-wrong-key and prompt tags when set.
pub open spec fn wait_key_desc(step: TaskStep, lang: Lang) -> Seq<char> {
    let base = fill(pick(lang, "等待按键 {key}"@, "WaitKey {key}"@), "{key}"@, vk_name_spec(step.param as i32, lang));
    let a = if step.extra % 2 == 1 {
        base + " "@ + pick(lang, "错键终止"@, "ErrStop"@)
    } else {
        base
    };
    if (step.extra / 2) % 2 == 1 {
        a + " "@ + pick(lang, "弹窗"@, "Popup"@)
    } else {
        a
    }
}

fn describe_wait_key(step: &TaskStep, lang: Lang) -> (r: String)
    ensures
        r@ == wait_key_desc(*step, lang),
{
    proof {
        reveal_strlit("{key}");
    }
    let key = vk_name(step.param as i32, lang);
    let mut s = replace(tf(lang, "等待按键 {key}", "WaitKey {key}"), "{key}", key.as_str());
    let e = step.extra;
    proof {
        lemma_extra_fields(e);
    }
    if waitkey_terminate_on_wrong(step.extra) {
        push_str(&mut s, " ");
        push_str(&mut s, t(lang, "错键终止", "ErrStop"));
    }
    if waitkey_show_popup(step.extra) {
        push_str(&mut s, " ");
        push_str(&mut s, t(lang, "弹窗", "Popup"));
    }
    s
}

/// The description of a wait for typed input: the expected text cut after
/// 20 bytes, then the regex, copy and ignore-failure tags when set.
pub open spec fn wait_input_desc(step: TaskStep, lang: Lang, msg: Seq<char>) -> Seq<char> {
    let base = shown_msg20("等待输入: {msg}"@, "等待输入: {msg}..."@, "WaitInput: {msg}"@, "WaitInput: {msg}..."@, lang, msg);
    let a = if (step.extra / 4) % 2 == 1 {
        base + " "@ + pick(lang, "正则"@, "Regex"@)
    } else {
        base
    };
    let b = if step.extra % 2 == 1 {
        a + " "@ + pick(lang, "复制"@, "Copy"@)
    } else {
        a
    };
    if (step.extra / 2) % 2 == 1 {
        b + " "@ + pick(lang, "忽略失败"@, "IgnoreFail"@)
    } else {
        b
    }
}

fn describe_wait_input(step: &TaskStep, lang: Lang, msg: &str) -> (r: String)
    requires
        cut_ok(msg@, 20),
    ensures
        r@ == wait_input_desc(*step, lang, msg@),
{
    let mut s = show_msg20("等待输入: {msg}", "等待输入: {msg}...", "WaitInput: {msg}", "WaitInput: {msg}...", lang, msg);
    let e = step.extra;
    proof {
        lemma_extra_fields(e);
    }
    if waitinput_regex(step.extra) {
        push_str(&mut s, " ");
        push_str(&mut s, t(lang, "正则", "Regex"));
    }
    if waitinput_copy(step.extra) {
        push_str(&mut s, " ");
        push_str(&mut s, t(lang, "复制", "Copy"));
    }
    if waitinput_ignore_fail(step.extra) {
        push_str(&mut s, " ");
        push_str(&mut s, t(lang, "忽略失败", "IgnoreFail"));
    }
    s
}

/// The description of a comment: its covered-row count in brackets when not
/// 0, and its text cut after 25 bytes with "..." appended.
pub open spec fn comment_desc(step: TaskStep, lang: Lang, msg: Seq<char>) -> Seq<char> {
    let tag = if step.extra > 0 {
        "["@ + dec(step.extra as nat) + "]"@
    } else {
        Seq::empty()
    };
    let body = if utf8_len(msg) > 25 {
        byte_prefix(msg, 25) + "..."@
    } else {
        msg
    };
    if tag.len() == 0 && body.len() == 0 {
        pick(lang, "备注"@, "Comment"@)
    } else if body.len() == 0 {
        fill(pick(lang, "备注 {tag}"@, "Comment {tag}"@), "{tag}"@, tag)
    } else if tag.len() == 0 {
        fill(pick(lang, "备注 {body}"@, "Comment {body}"@), "{body}"@, body)
    } else {
        fill(fill(pick(lang, "备注 {tag} {body}"@, "Comment {tag} {body}"@), "{tag}"@, tag), "{body}"@, body)
    }
}

fn describe_comment(step: &TaskStep, lang: Lang, msg: &str) -> (r: String)
    requires
        cut_ok(msg@, 25),
    ensures
        r@ == comment_desc(*step, lang, msg@),
{
    proof {
        reveal_strlit("{tag}");
        reveal_strlit("{body}");
        reveal_strlit("[");
        reveal_strlit("]");
        reveal_strlit("...");
    }
    let mut tag = String::new();
    if step.extra > 0 {
        push_str(&mut tag, "[");
        push_dec(&mut tag, step.extra as u64);
        push_str(&mut tag, "]");
    }
    let mut body = String::new();
    if byte_len(msg) > 25 {
        push_str(&mut body, prefix_bytes(msg, 25));
        push_str(&mut body, "...");
    } else {
        push_str(&mut body, msg);
    }
    assert(tag@ =~= (if step.extra > 0 {
        "["@ + dec(step.extra as nat) + "]"@
    } else {
        Seq::<char>::empty()
    }));
    assert(body@ =~= (if utf8_len(msg@) > 25 {
        byte_prefix(msg@, 25) + "..."@
    } else {
        msg@
    }));
    let tag_empty = char_len(tag.as_str()) == 0;
    let body_empty = char_len(body.as_str()) == 0;
    if tag_empty && body_empty {
        String::from_str(t(lang, "备注", "Comment"))
    } else if body_empty {
        replace(tf(lang, "备注 {tag}", "Comment {tag}"), "{tag}", tag.as_str())
    } else if tag_empty {
        replace(tf(lang, "备注 {body}", "Comment {body}"), "{body}", body.as_str())
    } else {
        let a = replace(tf(lang, "备注 {tag} {body}", "Comment {tag} {body}"), "{tag}", tag.as_str());
        replace(a.as_str(), "{body}", body.as_str())
    }
}

/// The description of an open-program step: its path cut after 30 bytes
/// with "..." appended.
pub open spec fn open_program_desc(lang: Lang, msg: Seq<char>) -> Seq<char> {
    if msg.len() == 0 {
        pick(lang, "打开程序"@, "Open Program"@)
    } else {
        let short = if utf8_len(msg) > 30 {
            byte_prefix(msg, 30) + "..."@
        } else {
            msg
        };
        fill(pick(lang, "打开程序: {path}"@, "Open: {path}"@), "{path}"@, short)
    }
}

fn describe_open_program(lang: Lang, msg: &str) -> (r: String)
    requires
        msg@.len() > 0 ==> cut_ok(msg@, 30),
    ensures
        r@ == open_program_desc(lang, msg@),
{
    proof {
        reveal_strlit("{path}");
    }
    if char_len(msg) == 0 {
        String::from_str(t(lang, "打开程序", "Open Program"))
    } else {
        let mut short = String::new();
        if byte_len(msg) > 30 {
            push_str(&mut short, prefix_bytes(msg, 30));
            push_str(&mut short, "...");
        } else {
            push_str(&mut short, msg);
        }
        assert(short@ =~= (if utf8_len(msg@) > 30 {
            byte_prefix(msg@, 30) + "..."@
        } else {
            msg@
        }));
        replace(tf(lang, "打开程序: {path}", "Open: {path}"), "{path}", short.as_str())
    }
}

// ---------------------------------------------------------------------
// The description
// ---------------------------------------------------------------------

/// The description of a step, given the text of its message (see
/// [`step_msg_id`]), the rendered move duration `secs`, and, for a combo,
/// the preset it matches.
pub open spec fn task_desc_spec(step: TaskStep, lang: Lang, msg: Seq<char>, secs: Seq<char>) -> Seq<char> {
    match step.action {
        TaskActionType::MouseClick => click_desc(step, lang),
        TaskActionType::Delay => delay_desc(step, lang),
        TaskActionType::KeyPress => keypress_desc(step, lang),
        TaskActionType::MouseDown => button_desc(step, lang, true),
        TaskActionType::MouseUp => button_desc(step, lang, false),
        TaskActionType::KeyDown => keyedge_desc(step, lang, true),
        TaskActionType::KeyUp => keyedge_desc(step, lang, false),
        TaskActionType::MouseWheel => if step.param != 0 {
            pick(lang, "滚轮上滚"@, "Wheel up"@)
        } else {
            pick(lang, "滚轮下滚"@, "Wheel down"@)
        },
        TaskActionType::MouseMove => move_desc(step, lang, msg, secs),
        TaskActionType::ImageMatch => image_desc(step, lang, msg),
        TaskActionType::Notify => shown_msg20("通知: {msg}"@, "通知: {msg}..."@, "Notify: {msg}"@, "Notify: {msg}..."@, lang, msg),
        TaskActionType::LostFocus => pick(lang, "失去焦点"@, "Lost focus"@),
        TaskActionType::RandomDelay => random_delay_desc(step, lang),
        TaskActionType::ComboKey => combo_desc(step, lang),
        TaskActionType::WaitUntil => wait_until_desc(step, lang),
        TaskActionType::WaitKey => wait_key_desc(step, lang),
        TaskActionType::CopyText => shown_msg20("复制文本: {msg}"@, "复制文本: {msg}..."@, "Copy text: {msg}"@, "Copy text: {msg}..."@, lang, msg),
        TaskActionType::WaitInput => wait_input_desc(step, lang, msg),
        TaskActionType::Comment => comment_desc(step, lang, msg),
        TaskActionType::ShowWindow => pick(lang, "显示程序窗口"@, "Show Window"@),
        TaskActionType::HideWindow => pick(lang, "隐藏程序窗口"@, "Hide Window"@),
        TaskActionType::OpenProgram => open_program_desc(lang, msg),
    }
}

/// The one-line description of a step in the task list.
///
/// `msg` is the text of the step's message (read by the caller, "" when
/// [`step_msg_id`] gives none) and `secs` the duration of a timed move in
/// seconds with one decimal.
pub fn task_desc_egui(step: &TaskStep, lang: Lang, msg: &str, secs: &str) -> (r: String)
    requires
        describable(*step, msg@),
    ensures
        r@ == task_desc_spec(*step, lang, msg@, secs@),
{
    let r = match step.action {
        TaskActionType::MouseClick => describe_click(step, lang),
        TaskActionType::Delay => describe_delay(step, lang),
        TaskActionType::KeyPress => describe_keypress(step, lang),
        TaskActionType::MouseDown => describe_button(step, lang, true),
        TaskActionType::MouseUp => describe_button(step, lang, false),
        TaskActionType::KeyDown => describe_keyedge(step, lang, true),
        TaskActionType::KeyUp => describe_keyedge(step, lang, false),
        TaskActionType::MouseWheel => {
            if step.param != 0 {
                String::from_str(t(lang, "滚轮上滚", "Wheel up"))
            } else {
                String::from_str(t(lang, "滚轮下滚", "Wheel down"))
            }
        },
        TaskActionType::MouseMove => describe_move(step, lang, msg, secs),
        TaskActionType::ImageMatch => describe_image(step, lang, msg),
        TaskActionType::Notify => show_msg20("通知: {msg}", "通知: {msg}...", "Notify: {msg}", "Notify: {msg}...", lang, msg),
        TaskActionType::LostFocus => String::from_str(t(lang, "失去焦点", "Lost focus")),
        TaskActionType::RandomDelay => describe_random_delay(step, lang),
        TaskActionType::ComboKey => {
            let r = describe_combo(step, lang);
            return r;
        },
        TaskActionType::WaitUntil => describe_wait_until(step, lang),
        TaskActionType::WaitKey => describe_wait_key(step, lang),
        TaskActionType::CopyText => show_msg20("复制文本: {msg}", "复制文本: {msg}...", "Copy text: {msg}", "Copy text: {msg}...", lang, msg),
        TaskActionType::WaitInput => describe_wait_input(step, lang, msg),
        TaskActionType::Comment => describe_comment(step, lang, msg),
        TaskActionType::ShowWindow => String::from_str(t(lang, "显示程序窗口", "Show Window")),
        TaskActionType::HideWindow => String::from_str(t(lang, "隐藏程序窗口", "Hide Window")),
        TaskActionType::OpenProgram => describe_open_program(lang, msg),
    };
    r
}

/// The prompt shown while a run waits for key `vk`.
pub open spec fn wait_key_prompt_spec(vk: i32, lang: Lang) -> Seq<char> {
    fill(pick(lang, "等待按下 {key} 继续..."@, "Press {key} to continue..."@), "{key}"@, vk_name_spec(vk, lang))
}

/// The prompt shown while a run waits for key `vk`.
pub fn wait_key_prompt(vk: i32, lang: Lang) -> (r: String)
    ensures
        r@ == wait_key_prompt_spec(vk, lang),
{
    proof {
        reveal_strlit("{key}");
    }
    let key = vk_name(vk, lang);
    replace(tf(lang, "等待按下 {key} 继续...", "Press {key} to continue..."), "{key}", key.as_str())
}

} // verus!
