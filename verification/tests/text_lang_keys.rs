use beer_mouse_clicker::keys::{egui_key_to_vk, is_mouse_vk, vk_name, HotkeyKey};
use beer_mouse_clicker::lang::{t, tf, Lang};
use beer_mouse_clicker::text::{
    fmt_i64, fmt_u64, parse_i32, parse_u32, parse_u64, parse_u8, prefix_chars, replace, str_eq,
};

#[test]
fn language_switch() {
    assert_eq!(Lang::CN.toggle(), Lang::EN);
    assert_eq!(Lang::EN.toggle().toggle(), Lang::EN);
    assert_eq!(Lang::CN.short_label(), "中");
    assert_eq!(Lang::EN.short_label(), "En");
    assert_eq!(t(Lang::CN, "取消", "Cancel"), "取消");
    assert_eq!(t(Lang::EN, "取消", "Cancel"), "Cancel");
    assert_eq!(tf(Lang::EN, "延迟 {}ms", "Delay {}ms"), "Delay {}ms");
}

#[test]
fn language_in_the_process_cell_and_the_store() {
    for l in [Lang::CN, Lang::EN] {
        assert_eq!(Lang::from_global(l.save_to_global()), l);
        assert_eq!(Lang::from_saved(l.saved_code()), Some(l));
    }
    assert_eq!(Lang::from_global(7), Lang::CN);
    assert_eq!(Lang::from_saved("fr"), None);
    assert_eq!(Lang::from_saved(""), None);
    assert_eq!(Lang::EN.saved_code(), "en");
}

#[test]
fn system_language_by_primary_id() {
    assert_eq!(Lang::from_ui_language(0x0804), Lang::CN);
    assert_eq!(Lang::from_ui_language(0x0404), Lang::CN);
    assert_eq!(Lang::from_ui_language(0x0409), Lang::EN);
}

#[test]
fn key_names() {
    assert_eq!(vk_name(0x75, Lang::EN), "F6");
    assert_eq!(vk_name(0x41, Lang::CN), "A");
    assert_eq!(vk_name(0x35, Lang::EN), "5");
    assert_eq!(vk_name(0x63, Lang::CN), "小键盘3");
    assert_eq!(vk_name(0x63, Lang::EN), "Num3");
    assert_eq!(vk_name(0x20, Lang::CN), "空格");
    assert_eq!(vk_name(0x20, Lang::EN), "Space");
    assert_eq!(vk_name(0xA2, Lang::EN), "Ctrl");
    assert_eq!(vk_name(0x01, Lang::EN), "LButton");
    assert_eq!(vk_name(0x25, Lang::EN), "←");
    assert_eq!(vk_name(0xB3, Lang::CN), "播放/暂停");
    assert_eq!(vk_name(0xFF, Lang::EN), "VK:0xFF");
    assert_eq!(vk_name(0x0A, Lang::EN), "VK:0xA");
    assert_eq!(vk_name(-1, Lang::EN), "VK:0xFFFFFFFF");
}

#[test]
fn mouse_keys() {
    for vk in [1, 2, 4, 5, 6] {
        assert!(is_mouse_vk(vk));
    }
    for vk in [0, 3, 7, 0x41] {
        assert!(!is_mouse_vk(vk));
    }
}

#[test]
fn hotkey_keys() {
    assert_eq!(egui_key_to_vk(HotkeyKey::F1), 0x70);
    assert_eq!(egui_key_to_vk(HotkeyKey::F12), 0x7B);
    assert_eq!(egui_key_to_vk(HotkeyKey::Space), 0x20);
    assert_eq!(egui_key_to_vk(HotkeyKey::Enter), 0x0D);
    assert_eq!(egui_key_to_vk(HotkeyKey::Tab), 0x09);
    assert_eq!(egui_key_to_vk(HotkeyKey::Z), 0x5A);
    assert_eq!(egui_key_to_vk(HotkeyKey::Num0), 0x30);
}

#[test]
fn numbers_print_and_parse_like_std() {
    assert_eq!(fmt_u64(0), "0");
    assert_eq!(fmt_u64(u64::MAX), u64::MAX.to_string());
    assert_eq!(fmt_i64(-42), "-42");
    assert_eq!(fmt_i64(i64::MIN), i64::MIN.to_string());
    for s in ["0", "+7", "007", "", "+", "-1", "12a", "18446744073709551615", "18446744073709551616"] {
        assert_eq!(parse_u64(s), s.parse::<u64>().ok());
    }
    for s in ["255", "256", "+0", " 1"] {
        assert_eq!(parse_u8(s), s.parse::<u8>().ok());
    }
    for s in ["4294967295", "4294967296", "x"] {
        assert_eq!(parse_u32(s), s.parse::<u32>().ok());
    }
    for s in ["-2147483648", "2147483647", "2147483648", "-2147483649", "-", "+5", "-0", "1e3"] {
        assert_eq!(parse_i32(s), s.parse::<i32>().ok());
    }
}

#[test]
fn replace_like_std() {
    for (s, p, r) in [("a{x}b{x}", "{x}", "1"), ("aaa", "aa", "b"), ("", "{}", "z"), ("no", "{}", "z"), ("ü{}ü", "{}", "é")] {
        assert_eq!(replace(s, p, r), s.replace(p, r));
    }
    assert!(str_eq("abc", "abc"));
    assert!(!str_eq("abc", "abd"));
    assert_eq!(prefix_chars("héllo", 2), "hé");
    assert_eq!(prefix_chars("hi", 5), "hi");
}
