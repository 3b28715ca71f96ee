//! Virtual-key codes: their readable names, the mouse buttons among them,
//! and the codes of the keys a hotkey can be set to.

use vstd::prelude::*;
use crate::lang::{t, tf, Lang};
use crate::text::{dec, hex, push_char, push_dec, push_hex, push_str, replace, replace_all};

verus! {

/// The text for a language.
pub open spec fn pick(lang: Lang, cn: Seq<char>, en: Seq<char>) -> Seq<char> {
    match lang {
        Lang::CN => cn,
        Lang::EN => en,
    }
}

/// Whether a virtual-key code is a mouse button (left, right, middle, X1, X2).
pub open spec fn is_mouse_vk_spec(vk: i32) -> bool {
    vk == 1 || vk == 2 || vk == 4 || vk == 5 || vk == 6
}

/// Whether a virtual-key code is a mouse button.
pub fn is_mouse_vk(vk: i32) -> (r: bool)
    ensures
        r == is_mouse_vk_spec(vk),
{
    vk == 1 || vk == 2 || vk == 4 || vk == 5 || vk == 6
}

/// The fixed name of a virtual key, for keys whose name is not computed
/// from the code.
pub open spec fn fixed_vk_name(vk: i32, lang: Lang) -> Option<Seq<char>> {
    if vk == 0x20 {
        Some(pick(lang, "空格"@, "Space"@))
    } else if vk == 0x0D {
        Some(pick(lang, "回车"@, "Enter"@))
    } else if vk == 0x09 {
        Some("Tab"@)
    } else if vk == 0x08 {
        Some(pick(lang, "退格"@, "Backspace"@))
    } else if vk == 0x1B {
        Some("Esc"@)
    } else if vk == 0x25 {
        Some("←"@)
    } else if vk == 0x26 {
        Some("↑"@)
    } else if vk == 0x27 {
        Some("→"@)
    } else if vk == 0x28 {
        Some("↓"@)
    } else if vk == 0x2D {
        Some("Insert"@)
    } else if vk == 0x2E {
        Some("Delete"@)
    } else if vk == 0x24 {
        Some("Home"@)
    } else if vk == 0x23 {
        Some("End"@)
    } else if vk == 0x21 {
        Some("PageUp"@)
    } else if vk == 0x22 {
        Some("PageDown"@)
    } else if vk == 0x10 || vk == 0xA0 || vk == 0xA1 {
        Some("Shift"@)
    } else if vk == 0x11 || vk == 0xA2 || vk == 0xA3 {
        Some("Ctrl"@)
    } else if vk == 0x12 || vk == 0xA4 || vk == 0xA5 {
        Some("Alt"@)
    } else if vk == 0x5B || vk == 0x5C {
        Some("Win"@)
    } else if vk == 0x13 {
        Some("Pause"@)
    } else if vk == 0x2C {
        Some("PrintScreen"@)
    } else if vk == 0x91 {
        Some("ScrollLock"@)
    } else if vk == 0x14 {
        Some("CapsLock"@)
    } else if vk == 0x90 {
        Some("NumLock"@)
    } else if vk == 1 {
        Some(pick(lang, "鼠标左键"@, "LButton"@))
    } else if vk == 2 {
        Some(pick(lang, "鼠标右键"@, "RButton"@))
    } else if vk == 4 {
        Some(pick(lang, "鼠标中键"@, "MButton"@))
    } else if vk == 5 {
        Some(pick(lang, "鼠标侧键1"@, "X1"@))
    } else if vk == 6 {
        Some(pick(lang, "鼠标侧键2"@, "X2"@))
    } else if vk == 0x6A {
        Some(pick(lang, "小键盘*"@, "Num*"@))
    } else if vk == 0x6B {
        Some(pick(lang, "小键盘+"@, "Num+"@))
    } else if vk == 0x6D {
        Some(pick(lang, "小键盘-"@, "Num-"@))
    } else if vk == 0x6E {
        Some(pick(lang, "小键盘."@, "Num."@))
    } else if vk == 0x6F {
        Some(pick(lang, "小键盘/"@, "Num/"@))
    } else if vk == 0xBA {
        Some(";"@)
    } else if vk == 0xBB {
        Some("="@)
    } else if vk == 0xBC {
        Some(","@)
    } else if vk == 0xBD {
        Some("-"@)
    } else if vk == 0xBE {
        Some("."@)
    } else if vk == 0xBF {
        Some("/"@)
    } else if vk == 0xC0 {
        Some("`"@)
    } else if vk == 0xDB {
        Some("["@)
    } else if vk == 0xDC {
        Some("\\"@)
    } else if vk == 0xDD {
        Some("]"@)
    } else if vk == 0xDE {
        Some("'"@)
    } else if vk == 0x5D {
        Some(pick(lang, "菜单键"@, "Menu"@))
    } else if vk == 0xA6 || vk == 0xA7 {
        Some(pick(lang, "浏览器"@, "Browser"@))
    } else if vk == 0xA8 {
        Some(pick(lang, "收藏夹"@, "Favorites"@))
    } else if vk == 0xA9 {
        Some(pick(lang, "浏览器主页"@, "Home"@))
    } else if vk == 0xAC {
        Some(pick(lang, "浏览器搜索"@, "Search"@))
    } else if vk == 0xB4 {
        Some(pick(lang, "启动邮件"@, "Mail"@))
    } else if vk == 0xAD {
        Some(pick(lang, "静音"@, "Mute"@))
    } else if vk == 0xAE {
        Some(pick(lang, "音量-"@, "Vol-"@))
    } else if vk == 0xAF {
        Some(pick(lang, "音量+"@, "Vol+"@))
    } else if vk == 0xB0 {
        Some(pick(lang, "下一曲"@, "Next"@))
    } else if vk == 0xB1 {
        Some(pick(lang, "上一曲"@, "Prev"@))
    } else if vk == 0xB2 {
        Some(pick(lang, "停止播放"@, "Stop"@))
    } else if vk == 0xB3 {
        Some(pick(lang, "播放/暂停"@, "Play"@))
    } else if vk == 0xE2 {
        Some("OEM_102"@)
    } else {
        None
    }
}

/// The readable name of a virtual key: "F1".."F12", the letter, the digit,
/// the numeric-pad digit, a fixed name, or `VK:0x..` with the code's
/// upper-case hexadecimal bit pattern.
pub open spec fn vk_name_spec(vk: i32, lang: Lang) -> Seq<char> {
    if 0x70 <= vk <= 0x7B {
        "F"@ + dec((vk - 0x6F) as nat)
    } else if 0x41 <= vk <= 0x5A {
        seq![(vk as u8) as char]
    } else if 0x30 <= vk <= 0x39 {
        dec((vk - 0x30) as nat)
    } else if 0x60 <= vk <= 0x69 {
        replace_all(pick(lang, "小键盘{}"@, "Num{}"@), "{}"@, dec((vk - 0x60) as nat))
    } else {
        match fixed_vk_name(vk, lang) {
            Some(n) => n,
            None => "VK:0x"@ + hex((vk as u32) as nat),
        }
    }
}

fn fixed_name(vk: i32, lang: Lang) -> (r: Option<&'static str>)
    ensures
        match r {
            Some(s) => fixed_vk_name(vk, lang) == Some(s@),
            None => fixed_vk_name(vk, lang) is None,
        },
{
    if vk == 0x20 {
        Some(t(lang, "空格", "Space"))
    } else if vk == 0x0D {
        Some(t(lang, "回车", "Enter"))
    } else if vk == 0x09 {
        Some("Tab")
    } else if vk == 0x08 {
        Some(t(lang, "退格", "Backspace"))
    } else if vk == 0x1B {
        Some("Esc")
    } else if vk == 0x25 {
        Some("←")
    } else if vk == 0x26 {
        Some("↑")
    } else if vk == 0x27 {
        Some("→")
    } else if vk == 0x28 {
        Some("↓")
    } else if vk == 0x2D {
        Some("Insert")
    } else if vk == 0x2E {
        Some("Delete")
    } else if vk == 0x24 {
        Some("Home")
    } else if vk == 0x23 {
        Some("End")
    } else if vk == 0x21 {
        Some("PageUp")
    } else if vk == 0x22 {
        Some("PageDown")
    } else if vk == 0x10 || vk == 0xA0 || vk == 0xA1 {
        Some("Shift")
    } else if vk == 0x11 || vk == 0xA2 || vk == 0xA3 {
        Some("Ctrl")
    } else if vk == 0x12 || vk == 0xA4 || vk == 0xA5 {
        Some("Alt")
    } else if vk == 0x5B || vk == 0x5C {
        Some("Win")
    } else if vk == 0x13 {
        Some("Pause")
    } else if vk == 0x2C {
        Some("PrintScreen")
    } else if vk == 0x91 {
        Some("ScrollLock")
    } else if vk == 0x14 {
        Some("CapsLock")
    } else if vk == 0x90 {
        Some("NumLock")
    } else if vk == 1 {
        Some(t(lang, "鼠标左键", "LButton"))
    } else if vk == 2 {
        Some(t(lang, "鼠标右键", "RButton"))
    } else if vk == 4 {
        Some(t(lang, "鼠标中键", "MButton"))
    } else if vk == 5 {
        Some(t(lang, "鼠标侧键1", "X1"))
    } else if vk == 6 {
        Some(t(lang, "鼠标侧键2", "X2"))
    } else if vk == 0x6A {
        Some(t(lang, "小键盘*", "Num*"))
    } else if vk == 0x6B {
        Some(t(lang, "小键盘+", "Num+"))
    } else if vk == 0x6D {
        Some(t(lang, "小键盘-", "Num-"))
    } else if vk == 0x6E {
        Some(t(lang, "小键盘.", "Num."))
    } else if vk == 0x6F {
        Some(t(lang, "小键盘/", "Num/"))
    } else if vk == 0xBA {
        Some(";")
    } else if vk == 0xBB {
        Some("=")
    } else if vk == 0xBC {
        Some(",")
    } else if vk == 0xBD {
        Some("-")
    } else if vk == 0xBE {
        Some(".")
    } else if vk == 0xBF {
        Some("/")
    } else if vk == 0xC0 {
        Some("`")
    } else if vk == 0xDB {
        Some("[")
    } else if vk == 0xDC {
        Some("\\")
    } else if vk == 0xDD {
        Some("]")
    } else if vk == 0xDE {
        Some("'")
    } else if vk == 0x5D {
        Some(t(lang, "菜单键", "Menu"))
    } else if vk == 0xA6 || vk == 0xA7 {
        Some(t(lang, "浏览器", "Browser"))
    } else if vk == 0xA8 {
        Some(t(lang, "收藏夹", "Favorites"))
    } else if vk == 0xA9 {
        Some(t(lang, "浏览器主页", "Home"))
    } else if vk == 0xAC {
        Some(t(lang, "浏览器搜索", "Search"))
    } else if vk == 0xB4 {
        Some(t(lang, "启动邮件", "Mail"))
    } else if vk == 0xAD {
        Some(t(lang, "静音", "Mute"))
    } else if vk == 0xAE {
        Some(t(lang, "音量-", "Vol-"))
    } else if vk == 0xAF {
        Some(t(lang, "音量+", "Vol+"))
    } else if vk == 0xB0 {
        Some(t(lang, "下一曲", "Next"))
    } else if vk == 0xB1 {
        Some(t(lang, "上一曲", "Prev"))
    } else if vk == 0xB2 {
        Some(t(lang, "停止播放", "Stop"))
    } else if vk == 0xB3 {
        Some(t(lang, "播放/暂停", "Play"))
    } else if vk == 0xE2 {
        Some("OEM_102")
    } else {
        None
    }
}

/// The readable name of a virtual key.
pub fn vk_name(vk: i32, lang: Lang) -> (r: String)
    ensures
        r@ == vk_name_spec(vk, lang),
{
    if 0x70 <= vk && vk <= 0x7B {
        let mut s = String::from_str("F");
        push_dec(&mut s, (vk - 0x6F) as u64);
        s
    } else if 0x41 <= vk && vk <= 0x5A {
        let mut s = String::new();
        push_char(&mut s, (vk as u8) as char);
        assert(s@ =~= seq![(vk as u8) as char]);
        s
    } else if 0x30 <= vk && vk <= 0x39 {
        let mut s = String::new();
        push_dec(&mut s, (vk - 0x30) as u64);
        assert(s@ =~= dec((vk - 0x30) as nat));
        s
    } else if 0x60 <= vk && vk <= 0x69 {
        let tmpl = tf(lang, "小键盘{}", "Num{}");
        let mut d = String::new();
        push_dec(&mut d, (vk - 0x60) as u64);
        assert(d@ =~= dec((vk - 0x60) as nat));
        proof {
            reveal_strlit("{}");
        }
        replace(tmpl, "{}", d.as_str())
    } else {
        match fixed_name(vk, lang) {
            Some(n) => String::from_str(n),
            None => {
                let mut s = String::from_str("VK:0x");
                push_hex(&mut s, (vk as u32) as u64);
                s
            },
        }
    }
}

/// The keys a hotkey can be recorded from.
#[derive(Clone, Copy, PartialEq, Eq, Structural, Debug)]
pub enum HotkeyKey {
    F1,
    F2,
    F3,
    F4,
    F5,
    F6,
    F7,
    F8,
    F9,
    F10,
    F11,
    F12,
    Space,
    Enter,
    Tab,
    A,
    B,
    C,
    D,
    E,
    F,
    G,
    H,
    I,
    J,
    K,
    L,
    M,
    N,
    O,
    P,
    Q,
    R,
    S,
    T,
    U,
    V,
    W,
    X,
    Y,
    Z,
    Num0,
    Num1,
    Num2,
    Num3,
    Num4,
    Num5,
    Num6,
    Num7,
    Num8,
    Num9,
}

/// The virtual-key code of a hotkey key.
pub open spec fn hotkey_vk(key: HotkeyKey) -> i32 {
    match key {
        HotkeyKey::F1 => 0x70,
        HotkeyKey::F2 => 0x71,
        HotkeyKey::F3 => 0x72,
        HotkeyKey::F4 => 0x73,
        HotkeyKey::F5 => 0x74,
        HotkeyKey::F6 => 0x75,
        HotkeyKey::F7 => 0x76,
        HotkeyKey::F8 => 0x77,
        HotkeyKey::F9 => 0x78,
        HotkeyKey::F10 => 0x79,
        HotkeyKey::F11 => 0x7A,
        HotkeyKey::F12 => 0x7B,
        HotkeyKey::Space => 0x20,
        HotkeyKey::Enter => 0x0D,
        HotkeyKey::Tab => 0x09,
        HotkeyKey::A => 0x41,
        HotkeyKey::B => 0x42,
        HotkeyKey::C => 0x43,
        HotkeyKey::D => 0x44,
        HotkeyKey::E => 0x45,
        HotkeyKey::F => 0x46,
        HotkeyKey::G => 0x47,
        HotkeyKey::H => 0x48,
        HotkeyKey::I => 0x49,
        HotkeyKey::J => 0x4A,
        HotkeyKey::K => 0x4B,
        HotkeyKey::L => 0x4C,
        HotkeyKey::M => 0x4D,
        HotkeyKey::N => 0x4E,
        HotkeyKey::O => 0x4F,
        HotkeyKey::P => 0x50,
        HotkeyKey::Q => 0x51,
        HotkeyKey::R => 0x52,
        HotkeyKey::S => 0x53,
        HotkeyKey::T => 0x54,
        HotkeyKey::U => 0x55,
        HotkeyKey::V => 0x56,
        HotkeyKey::W => 0x57,
        HotkeyKey::X => 0x58,
        HotkeyKey::Y => 0x59,
        HotkeyKey::Z => 0x5A,
        HotkeyKey::Num0 => 0x30,
        HotkeyKey::Num1 => 0x31,
        HotkeyKey::Num2 => 0x32,
        HotkeyKey::Num3 => 0x33,
        HotkeyKey::Num4 => 0x34,
        HotkeyKey::Num5 => 0x35,
        HotkeyKey::Num6 => 0x36,
        HotkeyKey::Num7 => 0x37,
        HotkeyKey::Num8 => 0x38,
        HotkeyKey::Num9 => 0x39,
    }
}

/// The virtual-key code of a hotkey key.
pub fn egui_key_to_vk(key: HotkeyKey) -> (vk: i32)
    ensures
        vk == hotkey_vk(key),
        vk != 0,
        !is_mouse_vk_spec(vk),
{
    match key {
        HotkeyKey::F1 => 0x70,
        HotkeyKey::F2 => 0x71,
        HotkeyKey::F3 => 0x72,
        HotkeyKey::F4 => 0x73,
        HotkeyKey::F5 => 0x74,
        HotkeyKey::F6 => 0x75,
        HotkeyKey::F7 => 0x76,
        HotkeyKey::F8 => 0x77,
        HotkeyKey::F9 => 0x78,
        HotkeyKey::F10 => 0x79,
        HotkeyKey::F11 => 0x7A,
        HotkeyKey::F12 => 0x7B,
        HotkeyKey::Space => 0x20,
        HotkeyKey::Enter => 0x0D,
        HotkeyKey::Tab => 0x09,
        HotkeyKey::A => 0x41,
        HotkeyKey::B => 0x42,
        HotkeyKey::C => 0x43,
        HotkeyKey::D => 0x44,
        HotkeyKey::E => 0x45,
        HotkeyKey::F => 0x46,
        HotkeyKey::G => 0x47,
        HotkeyKey::H => 0x48,
        HotkeyKey::I => 0x49,
        HotkeyKey::J => 0x4A,
        HotkeyKey::K => 0x4B,
        HotkeyKey::L => 0x4C,
        HotkeyKey::M => 0x4D,
        HotkeyKey::N => 0x4E,
        HotkeyKey::O => 0x4F,
        HotkeyKey::P => 0x50,
        HotkeyKey::Q => 0x51,
        HotkeyKey::R => 0x52,
        HotkeyKey::S => 0x53,
        HotkeyKey::T => 0x54,
        HotkeyKey::U => 0x55,
        HotkeyKey::V => 0x56,
        HotkeyKey::W => 0x57,
        HotkeyKey::X => 0x58,
        HotkeyKey::Y => 0x59,
        HotkeyKey::Z => 0x5A,
        HotkeyKey::Num0 => 0x30,
        HotkeyKey::Num1 => 0x31,
        HotkeyKey::Num2 => 0x32,
        HotkeyKey::Num3 => 0x33,
        HotkeyKey::Num4 => 0x34,
        HotkeyKey::Num5 => 0x35,
        HotkeyKey::Num6 => 0x36,
        HotkeyKey::Num7 => 0x37,
        HotkeyKey::Num8 => 0x38,
        HotkeyKey::Num9 => 0x39,
    }
}

} // verus!
