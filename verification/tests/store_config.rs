use beer_mouse_clicker::config::{
    delete_image, delete_msg, get_i32, get_str, get_u64, load_all, load_background, load_image, load_lang,
    load_msg, load_rec_compress, load_tasks, save_auto_exec, save_auto_exec_boot, save_autostart, save_background,
    save_hotkey, save_image, save_interval, save_lang, save_lock_kb, save_lock_mouse, save_msg, save_rec_compress,
    save_task_loop, save_tasks,
};
use beer_mouse_clicker::constants::{TaskActionType, TaskStep};
use beer_mouse_clicker::store::{ConfigStore, StoreChange};

#[test]
fn empty_store_gives_the_defaults() {
    let store = ConfigStore::new();
    let (interval, hotkey, lock_kb, lock_mouse, tasks, task_loop, background, rec_compress, autostart, auto_exec, auto_exec_boot) =
        load_all(&store);
    assert_eq!(interval, 1000);
    assert_eq!(hotkey, 0x75);
    assert!(!lock_kb);
    assert!(!lock_mouse);
    assert!(tasks.is_empty());
    assert!(task_loop);
    assert!(!background);
    assert!(rec_compress);
    assert!(!autostart);
    assert!(!auto_exec);
    assert!(!auto_exec_boot);
    assert!(!load_background(&store));
    assert!(load_rec_compress(&store));
    assert_eq!(load_lang(&store), "");
}

#[test]
fn settings_read_back_as_saved() {
    let mut store = ConfigStore::new();
    save_interval(&mut store, 250);
    save_hotkey(&mut store, -3);
    save_lock_kb(&mut store, true);
    save_lock_mouse(&mut store, true);
    save_task_loop(&mut store, false);
    save_background(&mut store, true);
    save_rec_compress(&mut store, false);
    save_autostart(&mut store, true);
    save_auto_exec(&mut store, true);
    save_auto_exec_boot(&mut store, true);
    save_lang(&mut store, "en");
    let all = load_all(&store);
    assert_eq!(all.0, 250);
    assert_eq!(all.1, -3);
    assert!(all.2 && all.3);
    assert!(!all.5);
    assert!(all.6);
    assert!(!all.7);
    assert!(all.8 && all.9 && all.10);
    assert_eq!(load_lang(&store), "en");
    assert_eq!(get_str(&store, "lock_kb", "x"), "1");
}

#[test]
fn unreadable_numbers_fall_back_to_defaults() {
    let store = ConfigStore::from_rows(
        vec![("interval_ms".to_string(), "fast".to_string()), ("hotkey".to_string(), "99999999999".to_string())],
        vec![],
    );
    assert_eq!(get_u64(&store, "interval_ms", 1000), 1000);
    assert_eq!(get_i32(&store, "hotkey", 0x75), 0x75);
    assert_eq!(load_all(&store).0, 1000);
}

#[test]
fn only_the_text_1_switches_on() {
    let store = ConfigStore::from_rows(vec![("lock_kb".to_string(), "true".to_string())], vec![]);
    assert!(!load_all(&store).2);
}

#[test]
fn saved_tasks_read_back() {
    let mut store = ConfigStore::new();
    let tasks = vec![
        TaskStep { action: TaskActionType::Delay, param: 100, extra: 0 },
        TaskStep { action: TaskActionType::Notify, param: 3, extra: 0 },
    ];
    save_tasks(&mut store, &tasks);
    assert_eq!(get_str(&store, "tasks", ""), "1:100:0;10:3:0");
    assert_eq!(load_tasks(&store), tasks);
    assert_eq!(load_all(&store).4, tasks);
}

#[test]
fn messages_get_ids_in_turn() {
    let mut store = ConfigStore::new();
    let a = save_msg(&mut store, "hello");
    let b = save_msg(&mut store, "world");
    assert_eq!(a, 1);
    assert_eq!(b, 2);
    assert_eq!(load_msg(&store, a), "hello");
    assert_eq!(load_msg(&store, b), "world");
    assert_eq!(get_str(&store, "msg_1", ""), "hello");
    assert_eq!(get_str(&store, "next_msg_id", ""), "3");
    delete_msg(&mut store, a);
    assert_eq!(load_msg(&store, a), "");
    assert_eq!(load_msg(&store, b), "world");
    assert_eq!(load_msg(&store, 42), "");
}

#[test]
fn message_zero_is_never_deleted() {
    let mut store = ConfigStore::from_rows(vec![("msg_0".to_string(), "kept".to_string())], vec![]);
    delete_msg(&mut store, 0);
    assert_eq!(load_msg(&store, 0), "kept");
}

#[test]
fn images_get_ids_in_turn() {
    let mut store = ConfigStore::new();
    let a = save_image(&mut store, &[1, 2, 3]);
    let b = save_image(&mut store, &[9]);
    assert_eq!((a, b), (1, 2));
    assert_eq!(load_image(&store, a), Some(vec![1, 2, 3]));
    delete_image(&mut store, a);
    assert_eq!(load_image(&store, a), None);
    assert_eq!(load_image(&store, b), Some(vec![9]));
    delete_image(&mut store, 0);
    assert_eq!(load_image(&store, b), Some(vec![9]));
}

#[test]
fn changes_are_reported_in_order_once() {
    let mut store = ConfigStore::new();
    save_interval(&mut store, 5);
    let id = save_image(&mut store, &[7]);
    delete_image(&mut store, id);
    let changes = store.take_changes();
    assert_eq!(changes.len(), 4);
    match &changes[0] {
        StoreChange::SetValue(k, v) => {
            assert_eq!(k, "interval_ms");
            assert_eq!(v, "5");
        },
        other => panic!("unexpected {:?}", other),
    }
    match &changes[1] {
        StoreChange::PutImage(i, d) => {
            assert_eq!(*i, 1);
            assert_eq!(d, &vec![7u8]);
        },
        other => panic!("unexpected {:?}", other),
    }
    match &changes[2] {
        StoreChange::SetValue(k, v) => {
            assert_eq!(k, "next_image_id");
            assert_eq!(v, "2");
        },
        other => panic!("unexpected {:?}", other),
    }
    match &changes[3] {
        StoreChange::RemoveImage(i) => assert_eq!(*i, 1),
        other => panic!("unexpected {:?}", other),
    }
    assert!(store.take_changes().is_empty());
    assert_eq!(load_all(&store).0, 5);
}

#[test]
fn rows_override_in_order() {
    let store = ConfigStore::from_rows(
        vec![("k".to_string(), "a".to_string()), ("k".to_string(), "b".to_string())],
        vec![(4, vec![1]), (4, vec![2])],
    );
    assert_eq!(store.get("k"), Some("b".to_string()));
    assert_eq!(store.image(4), Some(vec![2]));
    assert_eq!(store.get("missing"), None);
}
