use beer_mouse_clicker::constants::{
    combo_preset, find_combo_preset, mouse_move_preset, pack_combo, pack_image_match, pack_move, unpack_combo,
    unpack_image_match, unpack_move, waitinput_copy, waitinput_ignore_fail, waitinput_regex, waitkey_show_popup,
    waitkey_terminate_on_wrong, TaskActionType, TaskStep, COMBO_PRESET_COUNT,
};
use beer_mouse_clicker::taskcodec::{decode_step, decode_tasks, encode_tasks, split_char};

fn step(action: TaskActionType, param: u64, extra: u32) -> TaskStep {
    TaskStep { action, param, extra }
}

#[test]
fn move_packing_keeps_both_halves() {
    assert_eq!(pack_move(-1, -1), 0xFFFF_FFFF_FFFF_FFFF);
    assert_eq!(pack_move(100, 0), 100);
    assert_eq!(pack_move(0, -100), 0xFFFF_FF9C_0000_0000);
    assert_eq!(unpack_move(pack_move(-5, 7)), (-5, 7));
    assert_eq!(unpack_move(pack_move(i32::MIN, i32::MAX)), (i32::MIN, i32::MAX));
}

#[test]
fn image_match_packing_keeps_both_ids() {
    assert_eq!(pack_image_match(3, 4), 3 | (4u64 << 32));
    assert_eq!(unpack_image_match(pack_image_match(u32::MAX, 9)), (u32::MAX, 9));
}

#[test]
fn combo_packing_one_key_per_byte() {
    assert_eq!(pack_combo(&[0xA2, 0x43]), 0x43A2);
    assert_eq!(unpack_combo(0x43A2, 2), vec![0xA2, 0x43]);
    // at most four keys are read back
    assert_eq!(unpack_combo(0x0807_0605_0403_0201, 6), vec![1, 2, 3, 4]);
    assert_eq!(unpack_combo(0x43A2, 0), Vec::<u8>::new());
}

#[test]
fn combo_presets_are_found_again() {
    for i in 0..COMBO_PRESET_COUNT {
        let p = combo_preset(i);
        let param = pack_combo(&p.vks);
        let found = find_combo_preset(param, p.vks.len() as u32);
        assert!(found.is_some());
        let j = found.unwrap();
        assert_eq!(combo_preset(j).vks, p.vks);
        assert!(j <= i);
    }
}

#[test]
fn an_unmatched_combo_gives_preset_zero() {
    assert_eq!(find_combo_preset(pack_combo(&[0x41, 0x42, 0x43]), 3), Some(0));
    assert_eq!(find_combo_preset(0x445B, 3), Some(0));
}

#[test]
fn move_presets_are_the_documented_targets() {
    assert_eq!(mouse_move_preset(0).0, -1);
    assert_eq!(mouse_move_preset(0).1, -1);
    assert_eq!((mouse_move_preset(1).0, mouse_move_preset(1).1), (100, 0));
    assert_eq!((mouse_move_preset(2).0, mouse_move_preset(2).1), (-100, 0));
    assert_eq!((mouse_move_preset(3).0, mouse_move_preset(3).1), (0, 100));
    assert_eq!((mouse_move_preset(4).0, mouse_move_preset(4).1), (0, -100));
}

#[test]
fn option_bits() {
    assert!(waitkey_terminate_on_wrong(1));
    assert!(!waitkey_terminate_on_wrong(2));
    assert!(waitkey_show_popup(2));
    assert!(waitinput_copy(1));
    assert!(waitinput_ignore_fail(2));
    assert!(waitinput_regex(4));
    assert!(!waitinput_regex(3));
}

#[test]
fn action_codes_follow_the_declaration_order() {
    assert_eq!(TaskActionType::MouseClick.code(), 0);
    assert_eq!(TaskActionType::Delay.code(), 1);
    assert_eq!(TaskActionType::OpenProgram.code(), 21);
    assert_eq!(TaskActionType::from_code(13), Some(TaskActionType::ComboKey));
    assert_eq!(TaskActionType::from_code(22), None);
    for c in 0u8..22 {
        assert_eq!(TaskActionType::from_code(c).unwrap().code(), c);
    }
}

#[test]
fn tasks_encode_as_type_param_extra() {
    let ts = vec![step(TaskActionType::MouseClick, 1, 0), step(TaskActionType::Delay, 100, 0)];
    assert_eq!(encode_tasks(&ts), "0:1:0;1:100:0");
    assert_eq!(encode_tasks(&[]), "");
    let ts2 = vec![step(TaskActionType::Comment, 7, 3)];
    assert_eq!(encode_tasks(&ts2), "16:7:3");
}

#[test]
fn tasks_decode_old_and_bad_segments() {
    assert_eq!(decode_tasks(""), Vec::<TaskStep>::new());
    assert_eq!(decode_tasks("1:100"), vec![step(TaskActionType::Delay, 100, 0)]);
    assert_eq!(decode_tasks("1:100:x"), vec![step(TaskActionType::Delay, 100, 0)]);
    assert_eq!(decode_tasks("99:1:0;x;2:65:0"), vec![step(TaskActionType::KeyPress, 65, 0)]);
    assert_eq!(decode_tasks("4:5:2:9"), vec![step(TaskActionType::MouseMove, 5, 0)]);
    assert_eq!(decode_step("21:3:0"), Some(step(TaskActionType::OpenProgram, 3, 0)));
    assert_eq!(decode_step("1:-5:0"), None);
}

#[test]
fn tasks_roundtrip_through_the_stored_text() {
    let ts = vec![
        step(TaskActionType::MouseMove, pack_move(-2, 5), 0x0100_03E8),
        step(TaskActionType::RandomDelay, 100 | (900u64 << 32), 0),
        step(TaskActionType::ComboKey, pack_combo(&[0x11, 0x43]), 2),
        step(TaskActionType::WaitInput, u64::MAX, u32::MAX),
    ];
    assert_eq!(decode_tasks(&encode_tasks(&ts)), ts);
}

#[test]
fn split_keeps_empty_pieces() {
    assert_eq!(split_char("a;;b", ';'), vec!["a".to_string(), String::new(), "b".to_string()]);
    assert_eq!(split_char("", ';'), vec![String::new()]);
}
