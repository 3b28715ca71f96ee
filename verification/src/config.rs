//! Settings, task list, messages and images, kept in the settings store
//! under fixed keys, with the defaults the application starts from.

use vstd::prelude::*;
use crate::constants::TaskStep;
use crate::store::{ConfigStore, StoreView, ChangeView};
use crate::taskcodec::{decode_spec, decode_tasks, encode_spec, encode_tasks, lemma_tasks_roundtrip};
use crate::text::{
    dec, dec_signed, fmt_i64, fmt_u64, lemma_dec_digits, lemma_parse_dec, lemma_parse_dec_signed_i32,
    parse_i32, parse_i32_spec, parse_u64, parse_unsigned, push_dec, str_eq,
};

verus! {

// ---------------------------------------------------------------------
// Reading
// ---------------------------------------------------------------------

/// The text of setting `key`, or `default` when it is not set.
pub open spec fn get_str_spec(v: StoreView, key: Seq<char>, default: Seq<char>) -> Seq<char> {
    if v.config.contains_key(key) {
        v.config[key]
    } else {
        default
    }
}

/// Setting `key` as a `u64`: its text (or the rendering of `default` when
/// unset) parsed, or `default` when that does not parse.
pub open spec fn get_u64_spec(v: StoreView, key: Seq<char>, default: u64) -> u64 {
    match parse_unsigned(get_str_spec(v, key, dec(default as nat)), u64::MAX as nat) {
        Some(n) => n as u64,
        None => default,
    }
}

/// Setting `key` as an `i32`, in the same way as [`get_u64_spec`].
pub open spec fn get_i32_spec(v: StoreView, key: Seq<char>, default: i32) -> i32 {
    match parse_i32_spec(get_str_spec(v, key, dec_signed(default as int))) {
        Some(n) => n as i32,
        None => default,
    }
}

/// The text a switch is stored as.
pub open spec fn flag_text(on: bool) -> Seq<char> {
    if on {
        "1"@
    } else {
        "0"@
    }
}

/// A switch setting: on exactly when its text (or the default's text when
/// unset) is "1".
pub open spec fn flag_spec(v: StoreView, key: Seq<char>, default_on: bool) -> bool {
    get_str_spec(v, key, flag_text(default_on)) == "1"@
}

/// The task list the store holds.
pub open spec fn tasks_spec(v: StoreView) -> Seq<TaskStep> {
    decode_spec(get_str_spec(v, "tasks"@, Seq::empty()))
}

/// Sets `key` to `value`.
pub fn set(store: &mut ConfigStore, key: &str, value: &str)
    ensures
        final(store)@.config == old(store)@.config.insert(key@, value@),
        final(store)@.images == old(store)@.images,
        final(store).pending() == old(store).pending().push(ChangeView::SetValue(key@, value@)),
        final(store).logged_since(*old(store)),
{
    store.set(key, value);
}

/// The text of setting `key`, or `default` when it is not set.
pub fn get_str(store: &ConfigStore, key: &str, default: &str) -> (r: String)
    ensures
        r@ == get_str_spec(store@, key@, default@),
{
    match store.get(key) {
        Some(v) => v,
        None => String::from_str(default),
    }
}

/// Setting `key` as a `u64`, or `default`.
pub fn get_u64(store: &ConfigStore, key: &str, default: u64) -> (r: u64)
    ensures
        r == get_u64_spec(store@, key@, default),
{
    let d = fmt_u64(default);
    let s = get_str(store, key, d.as_str());
    match parse_u64(s.as_str()) {
        Some(n) => n,
        None => default,
    }
}

/// Setting `key` as an `i32`, or `default`.
pub fn get_i32(store: &ConfigStore, key: &str, default: i32) -> (r: i32)
    ensures
        r == get_i32_spec(store@, key@, default),
{
    let d = fmt_i64(default as i64);
    let s = get_str(store, key, d.as_str());
    match parse_i32(s.as_str()) {
        Some(n) => n,
        None => default,
    }
}

fn get_flag(store: &ConfigStore, key: &str, default_on: bool) -> (r: bool)
    ensures
        r == flag_spec(store@, key@, default_on),
{
    let d = if default_on {
        "1"
    } else {
        "0"
    };
    let s = get_str(store, key, d);
    str_eq(s.as_str(), "1")
}

fn set_flag(store: &mut ConfigStore, key: &str, on: bool)
    ensures
        final(store)@.config == old(store)@.config.insert(key@, flag_text(on)),
        final(store)@.images == old(store)@.images,
        final(store).pending() == old(store).pending().push(ChangeView::SetValue(key@, flag_text(on))),
{
    if on {
        store.set(key, "1");
    } else {
        store.set(key, "0");
    }
}

/// Every setting, with its default: (interval ms 1000, hotkey 0x75 = F6,
/// lock keyboard off, lock mouse off, tasks empty, loop on, background off,
/// record compression on, autostart off, run on launch off, run on boot off).
pub open spec fn settings_spec(v: StoreView) -> (u64, i32, bool, bool, Seq<TaskStep>, bool, bool, bool, bool, bool, bool) {
    (
        get_u64_spec(v, "interval_ms"@, 1000),
        get_i32_spec(v, "hotkey"@, 0x75),
        flag_spec(v, "lock_kb"@, false),
        flag_spec(v, "lock_mouse"@, false),
        tasks_spec(v),
        flag_spec(v, "task_loop"@, true),
        flag_spec(v, "background"@, false),
        flag_spec(v, "rec_compress"@, true),
        flag_spec(v, "autostart"@, false),
        flag_spec(v, "auto_exec"@, false),
        flag_spec(v, "auto_exec_boot"@, false),
    )
}

/// Reads every setting, falling back to its default.
#[allow(clippy::type_complexity)]
pub fn load_all(store: &ConfigStore) -> (r: (u64, i32, bool, bool, Vec<TaskStep>, bool, bool, bool, bool, bool, bool))
    ensures
        ({
            let s = settings_spec(store@);
            &&& r.0 == s.0
            &&& r.1 == s.1
            &&& r.2 == s.2
            &&& r.3 == s.3
            &&& r.4@ == s.4
            &&& r.5 == s.5
            &&& r.6 == s.6
            &&& r.7 == s.7
            &&& r.8 == s.8
            &&& r.9 == s.9
            &&& r.10 == s.10
        }),
{
    let interval = get_u64(store, "interval_ms", 1000);
    let hotkey = get_i32(store, "hotkey", 0x75);
    let lock_kb = get_flag(store, "lock_kb", false);
    let lock_mouse = get_flag(store, "lock_mouse", false);
    let tasks = load_tasks(store);
    let task_loop = get_flag(store, "task_loop", true);
    let background = get_flag(store, "background", false);
    let rec_compress = get_flag(store, "rec_compress", true);
    let autostart = get_flag(store, "autostart", false);
    let auto_exec = get_flag(store, "auto_exec", false);
    let auto_exec_boot = get_flag(store, "auto_exec_boot", false);
    (interval, hotkey, lock_kb, lock_mouse, tasks, task_loop, background, rec_compress, autostart, auto_exec, auto_exec_boot)
}

/// The stored task list.
pub fn load_tasks(store: &ConfigStore) -> (r: Vec<TaskStep>)
    ensures
        r@ == tasks_spec(store@),
{
    let raw = get_str(store, "tasks", "");
    proof {
        assert(""@ =~= Seq::<char>::empty()) by {
            reveal_strlit("");
        }
    }
    decode_tasks(raw.as_str())
}

// ---------------------------------------------------------------------
// Writing settings
// ---------------------------------------------------------------------

/// Stores the interval between rounds.
pub fn save_interval(store: &mut ConfigStore, ms: u64)
    ensures
        final(store)@.config == old(store)@.config.insert("interval_ms"@, dec(ms as nat)),
        final(store)@.images == old(store)@.images,
        final(store).pending() == old(store).pending().push(ChangeView::SetValue("interval_ms"@, dec(ms as nat))),
{
    let v = fmt_u64(ms);
    store.set("interval_ms", v.as_str());
}

/// Stores the hotkey's virtual-key code.
pub fn save_hotkey(store: &mut ConfigStore, vk: i32)
    ensures
        final(store)@.config == old(store)@.config.insert("hotkey"@, dec_signed(vk as int)),
        final(store)@.images == old(store)@.images,
        final(store).pending() == old(store).pending().push(ChangeView::SetValue("hotkey"@, dec_signed(vk as int))),
{
    let v = fmt_i64(vk as i64);
    store.set("hotkey", v.as_str());
}

/// Stores whether the keyboard is locked while running.
pub fn save_lock_kb(store: &mut ConfigStore, on: bool)
    ensures
        final(store)@.config == old(store)@.config.insert("lock_kb"@, flag_text(on)),
        final(store)@.images == old(store)@.images,
        final(store).pending() == old(store).pending().push(ChangeView::SetValue("lock_kb"@, flag_text(on))),
{
    set_flag(store, "lock_kb", on);
}

/// Stores whether the mouse is locked while running.
pub fn save_lock_mouse(store: &mut ConfigStore, on: bool)
    ensures
        final(store)@.config == old(store)@.config.insert("lock_mouse"@, flag_text(on)),
        final(store)@.images == old(store)@.images,
        final(store).pending() == old(store).pending().push(ChangeView::SetValue("lock_mouse"@, flag_text(on))),
{
    set_flag(store, "lock_mouse", on);
}

/// Stores whether the task list loops.
pub fn save_task_loop(store: &mut ConfigStore, on: bool)
    ensures
        final(store)@.config == old(store)@.config.insert("task_loop"@, flag_text(on)),
        final(store)@.images == old(store)@.images,
        final(store).pending() == old(store).pending().push(ChangeView::SetValue("task_loop"@, flag_text(on))),
{
    set_flag(store, "task_loop", on);
}

/// Stores whether closing the window keeps running in the tray.
pub fn save_background(store: &mut ConfigStore, on: bool)
    ensures
        final(store)@.config == old(store)@.config.insert("background"@, flag_text(on)),
        final(store)@.images == old(store)@.images,
        final(store).pending() == old(store).pending().push(ChangeView::SetValue("background"@, flag_text(on))),
{
    set_flag(store, "background", on);
}

/// Stores whether recordings merge consecutive moves.
pub fn save_rec_compress(store: &mut ConfigStore, on: bool)
    ensures
        final(store)@.config == old(store)@.config.insert("rec_compress"@, flag_text(on)),
        final(store)@.images == old(store)@.images,
        final(store).pending() == old(store).pending().push(ChangeView::SetValue("rec_compress"@, flag_text(on))),
{
    set_flag(store, "rec_compress", on);
}

/// Whether closing the window keeps running in the tray (default off).
pub fn load_background(store: &ConfigStore) -> (r: bool)
    ensures
        r == flag_spec(store@, "background"@, false),
{
    get_flag(store, "background", false)
}

/// Whether recordings merge consecutive moves (default on).
pub fn load_rec_compress(store: &ConfigStore) -> (r: bool)
    ensures
        r == flag_spec(store@, "rec_compress"@, true),
{
    get_flag(store, "rec_compress", true)
}

/// Stores whether the program starts with Windows.
pub fn save_autostart(store: &mut ConfigStore, on: bool)
    ensures
        final(store)@.config == old(store)@.config.insert("autostart"@, flag_text(on)),
        final(store)@.images == old(store)@.images,
        final(store).pending() == old(store).pending().push(ChangeView::SetValue("autostart"@, flag_text(on))),
{
    set_flag(store, "autostart", on);
}

/// Stores whether a manual launch starts running the tasks.
pub fn save_auto_exec(store: &mut ConfigStore, on: bool)
    ensures
        final(store)@.config == old(store)@.config.insert("auto_exec"@, flag_text(on)),
        final(store)@.images == old(store)@.images,
        final(store).pending() == old(store).pending().push(ChangeView::SetValue("auto_exec"@, flag_text(on))),
{
    set_flag(store, "auto_exec", on);
}

/// Stores whether a launch at boot starts running the tasks.
pub fn save_auto_exec_boot(store: &mut ConfigStore, on: bool)
    ensures
        final(store)@.config == old(store)@.config.insert("auto_exec_boot"@, flag_text(on)),
        final(store)@.images == old(store)@.images,
        final(store).pending() == old(store).pending().push(ChangeView::SetValue("auto_exec_boot"@, flag_text(on))),
{
    set_flag(store, "auto_exec_boot", on);
}

/// Stores the interface language's saved text.
pub fn save_lang(store: &mut ConfigStore, lang: &str)
    ensures
        final(store)@.config == old(store)@.config.insert("language"@, lang@),
        final(store)@.images == old(store)@.images,
        final(store).pending() == old(store).pending().push(ChangeView::SetValue("language"@, lang@)),
{
    store.set("language", lang);
}

/// The interface language's saved text ("" when none was saved).
pub fn load_lang(store: &ConfigStore) -> (r: String)
    ensures
        r@ == get_str_spec(store@, "language"@, ""@),
{
    get_str(store, "language", "")
}

/// Stores the task list.
pub fn save_tasks(store: &mut ConfigStore, tasks: &[TaskStep])
    ensures
        final(store)@.config == old(store)@.config.insert("tasks"@, encode_spec(tasks@)),
        final(store)@.images == old(store)@.images,
        final(store).pending() == old(store).pending().push(ChangeView::SetValue("tasks"@, encode_spec(tasks@))),
        final(store).logged_since(*old(store)),
{
    let s = encode_tasks(tasks);
    store.set("tasks", s.as_str());
}

// ---------------------------------------------------------------------
// Messages and images
// ---------------------------------------------------------------------

/// The key under which message `id` is kept: `msg_<id>`.
pub open spec fn msg_key(id: u64) -> Seq<char> {
    "msg_"@ + dec(id as nat)
}

/// The key holding the id the next message gets.
pub open spec fn next_msg_key() -> Seq<char> {
    "next_msg_id"@
}

/// The key holding the id the next image gets.
pub open spec fn next_image_key() -> Seq<char> {
    "next_image_id"@
}

/// The id the next message gets (1 in an empty store).
pub open spec fn next_msg_id(v: StoreView) -> u64 {
    get_u64_spec(v, next_msg_key(), 1)
}

/// The id the next image gets (1 in an empty store).
pub open spec fn next_image_id(v: StoreView) -> u64 {
    get_u64_spec(v, next_image_key(), 1)
}

/// The store after saving message `text`, and the message's id.
pub open spec fn save_msg_spec(v: StoreView, text: Seq<char>) -> (StoreView, u64) {
    let id = next_msg_id(v);
    (
        StoreView {
            config: v.config.insert(msg_key(id), text).insert(next_msg_key(), dec((id + 1) as nat)),
            images: v.images,
        },
        id,
    )
}

/// The text of message `id` ("" when there is none).
pub open spec fn load_msg_spec(v: StoreView, id: u64) -> Seq<char> {
    get_str_spec(v, msg_key(id), Seq::empty())
}

/// The store after saving image `data`, and the image's id.
pub open spec fn save_image_spec(v: StoreView, data: Seq<u8>) -> (StoreView, u64) {
    let id = next_image_id(v);
    (
        StoreView {
            config: v.config.insert(next_image_key(), dec((id + 1) as nat)),
            images: v.images.insert(id, data),
        },
        id,
    )
}

fn msg_key_exec(id: u64) -> (k: String)
    ensures
        k@ == msg_key(id),
{
    let mut k = String::from_str("msg_");
    push_dec(&mut k, id);
    k
}

/// Saves an image and returns its id; the next image gets the following id.
pub fn save_image(store: &mut ConfigStore, data: &[u8]) -> (id: u64)
    requires
        next_image_id(old(store)@) < u64::MAX,
    ensures
        (final(store)@.config, final(store)@.images) == ({
            let s = save_image_spec(old(store)@, data@);
            (s.0.config, s.0.images)
        }),
        id == save_image_spec(old(store)@, data@).1,
        final(store).pending() == old(store).pending() + seq![
            ChangeView::PutImage(id, data@),
            ChangeView::SetValue(next_image_key(), dec((id + 1) as nat)),
        ],
        final(store).logged_since(*old(store)),
{
    let id = get_u64(store, "next_image_id", 1);
    store.put_image(id, data);
    let ghost mid = *store;
    let next = fmt_u64(id + 1);
    store.set("next_image_id", next.as_str());
    proof {
        ConfigStore::lemma_logged_trans(*old(store), mid, *store);
        assert(store.pending() =~= old(store).pending() + seq![
            ChangeView::PutImage(id, data@),
            ChangeView::SetValue(next_image_key(), dec((id + 1) as nat)),
        ]);
    }
    id
}

/// The bytes of image `id`, if there is one.
pub fn load_image(store: &ConfigStore, id: u64) -> (r: Option<Vec<u8>>)
    ensures
        match r {
            Some(d) => store@.images.contains_key(id) && d@ == store@.images[id],
            None => !store@.images.contains_key(id),
        },
{
    store.image(id)
}

/// Deletes image `id`; id 0 stands for no image and deletes nothing.
pub fn delete_image(store: &mut ConfigStore, id: u64)
    ensures
        final(store)@.images == if id == 0 {
            old(store)@.images
        } else {
            old(store)@.images.remove(id)
        },
        final(store)@.config == old(store)@.config,
        final(store).pending() == if id == 0 {
            old(store).pending()
        } else {
            old(store).pending().push(ChangeView::RemoveImage(id))
        },
        final(store).logged_since(*old(store)),
{
    if id == 0 {
        proof {
            ConfigStore::lemma_logged_refl(*store);
        }
        return;
    }
    store.remove_image(id);
}

/// Saves a message and returns its id; the next message gets the following id.
pub fn save_msg(store: &mut ConfigStore, text: &str) -> (id: u64)
    requires
        next_msg_id(old(store)@) < u64::MAX,
    ensures
        (final(store)@.config, final(store)@.images) == ({
            let s = save_msg_spec(old(store)@, text@);
            (s.0.config, s.0.images)
        }),
        id == save_msg_spec(old(store)@, text@).1,
        final(store).pending() == old(store).pending() + seq![
            ChangeView::SetValue(msg_key(id), text@),
            ChangeView::SetValue(next_msg_key(), dec((id + 1) as nat)),
        ],
        final(store).logged_since(*old(store)),
{
    let id = get_u64(store, "next_msg_id", 1);
    let key = msg_key_exec(id);
    store.set(key.as_str(), text);
    let ghost mid = *store;
    let next = fmt_u64(id + 1);
    store.set("next_msg_id", next.as_str());
    proof {
        ConfigStore::lemma_logged_trans(*old(store), mid, *store);
        assert(store.pending() =~= old(store).pending() + seq![
            ChangeView::SetValue(msg_key(id), text@),
            ChangeView::SetValue(next_msg_key(), dec((id + 1) as nat)),
        ]);
    }
    id
}

/// The text of message `id` ("" when there is none).
pub fn load_msg(store: &ConfigStore, id: u64) -> (r: String)
    ensures
        r@ == load_msg_spec(store@, id),
{
    let key = msg_key_exec(id);
    let r = get_str(store, key.as_str(), "");
    proof {
        assert(""@ =~= Seq::<char>::empty()) by {
            reveal_strlit("");
        }
    }
    r
}

/// Deletes message `id`; id 0 stands for no message and deletes nothing.
pub fn delete_msg(store: &mut ConfigStore, id: u64)
    ensures
        final(store)@.config == if id == 0 {
            old(store)@.config
        } else {
            old(store)@.config.remove(msg_key(id))
        },
        final(store)@.images == old(store)@.images,
        final(store).pending() == if id == 0 {
            old(store).pending()
        } else {
            old(store).pending().push(ChangeView::Remove(msg_key(id)))
        },
        final(store).logged_since(*old(store)),
{
    if id == 0 {
        proof {
            ConfigStore::lemma_logged_refl(*store);
        }
        return;
    }
    let key = msg_key_exec(id);
    store.remove(key.as_str());
}

// ---------------------------------------------------------------------
// Laws
// ---------------------------------------------------------------------

/// A saved message reads back as the saved text.
pub proof fn lemma_msg_roundtrip(v: StoreView, text: Seq<char>)
    ensures
        load_msg_spec(save_msg_spec(v, text).0, save_msg_spec(v, text).1) == text,
{
    let id = next_msg_id(v);
    assert(msg_key(id) != next_msg_key()) by {
        reveal_strlit("msg_");
        reveal_strlit("next_msg_id");
        assert(msg_key(id)[0] == 'm');
        assert(next_msg_key()[0] == 'n');
    }
}

/// Saving a second message gives it the next id and keeps the first.
pub proof fn lemma_two_msgs(v: StoreView, a: Seq<char>, b: Seq<char>)
    requires
        next_msg_id(v) < u64::MAX,
    ensures
        save_msg_spec(save_msg_spec(v, a).0, b).1 == save_msg_spec(v, a).1 + 1,
        load_msg_spec(save_msg_spec(save_msg_spec(v, a).0, b).0, save_msg_spec(v, a).1) == a,
        load_msg_spec(save_msg_spec(save_msg_spec(v, a).0, b).0, save_msg_spec(save_msg_spec(v, a).0, b).1) == b,
{
    let (v1, id1) = save_msg_spec(v, a);
    lemma_parse_dec((id1 + 1) as nat, u64::MAX as nat);
    lemma_msg_roundtrip(v, a);
    lemma_msg_roundtrip(v1, b);
    let id2 = save_msg_spec(v1, b).1;
    assert(id2 == id1 + 1);
    assert(msg_key(id1) != msg_key(id2)) by {
        lemma_dec_digits(id1 as nat);
        lemma_dec_digits(id2 as nat);
        let k1 = msg_key(id1);
        let k2 = msg_key(id2);
        if k1 == k2 {
            let n = "msg_"@.len() as int;
            assert(k1.skip(n) =~= dec(id1 as nat));
            assert(k2.skip(n) =~= dec(id2 as nat));
        }
    }
    assert(msg_key(id1) != next_msg_key()) by {
        reveal_strlit("msg_");
        reveal_strlit("next_msg_id");
        assert(msg_key(id1)[0] == 'm');
        assert(next_msg_key()[0] == 'n');
    }
}

/// A deleted message reads back as empty.
pub proof fn lemma_msg_deleted(v: StoreView, id: u64)
    requires
        id != 0,
    ensures
        load_msg_spec(StoreView { config: v.config.remove(msg_key(id)), images: v.images }, id) == Seq::<char>::empty(),
{
}

/// A saved image reads back as the saved bytes.
pub proof fn lemma_image_roundtrip(v: StoreView, data: Seq<u8>)
    ensures
        save_image_spec(v, data).0.images.contains_key(save_image_spec(v, data).1),
        save_image_spec(v, data).0.images[save_image_spec(v, data).1] == data,
{
}

/// The stored interval reads back as the interval saved.
pub proof fn lemma_interval_roundtrip(v: StoreView, ms: u64)
    ensures
        settings_spec(StoreView { config: v.config.insert("interval_ms"@, dec(ms as nat)), images: v.images }).0 == ms,
{
    lemma_parse_dec(ms as nat, u64::MAX as nat);
}

/// The stored hotkey reads back as the hotkey saved.
pub proof fn lemma_hotkey_roundtrip(v: StoreView, vk: i32)
    ensures
        settings_spec(StoreView { config: v.config.insert("hotkey"@, dec_signed(vk as int)), images: v.images }).1 == vk,
{
    lemma_parse_dec_signed_i32(vk);
}

/// A stored switch reads back as the value saved, whatever its default.
pub proof fn lemma_flag_roundtrip(v: StoreView, key: Seq<char>, on: bool, default_on: bool)
    ensures
        flag_spec(StoreView { config: v.config.insert(key, flag_text(on)), images: v.images }, key, default_on) == on,
{
    reveal_strlit("1");
    reveal_strlit("0");
    assert("0"@ != "1"@) by {
        assert("0"@[0] != "1"@[0]);
    }
}

/// The stored task list reads back as the list saved.
pub proof fn lemma_saved_tasks_roundtrip(v: StoreView, ts: Seq<TaskStep>)
    ensures
        settings_spec(StoreView { config: v.config.insert("tasks"@, encode_spec(ts)), images: v.images }).4 == ts,
{
    lemma_tasks_roundtrip(ts);
}

/// The store after saving, in turn, the interval, the hotkey, both locks,
/// the task list, the loop switch and the three start switches.
pub open spec fn saved_settings(
    v: StoreView,
    ms: u64,
    vk: i32,
    lock_kb: bool,
    lock_mouse: bool,
    ts: Seq<TaskStep>,
    task_loop: bool,
    autostart: bool,
    auto_exec: bool,
    auto_exec_boot: bool,
) -> StoreView {
    StoreView {
        config: v.config.insert("interval_ms"@, dec(ms as nat)).insert("hotkey"@, dec_signed(vk as int)).insert(
            "lock_kb"@,
            flag_text(lock_kb),
        ).insert("lock_mouse"@, flag_text(lock_mouse)).insert("tasks"@, encode_spec(ts)).insert(
            "task_loop"@,
            flag_text(task_loop),
        ).insert("autostart"@, flag_text(autostart)).insert("auto_exec"@, flag_text(auto_exec)).insert(
            "auto_exec_boot"@,
            flag_text(auto_exec_boot),
        ),
        images: v.images,
    }
}

/// Whatever the store held before, loading all settings after these saves
/// gives back each value saved.
pub proof fn lemma_saved_settings_load(
    v: StoreView,
    ms: u64,
    vk: i32,
    lock_kb: bool,
    lock_mouse: bool,
    ts: Seq<TaskStep>,
    task_loop: bool,
    autostart: bool,
    auto_exec: bool,
    auto_exec_boot: bool,
)
    ensures
        ({
            let s = settings_spec(
                saved_settings(v, ms, vk, lock_kb, lock_mouse, ts, task_loop, autostart, auto_exec, auto_exec_boot),
            );
            &&& s.0 == ms
            &&& s.1 == vk
            &&& s.2 == lock_kb
            &&& s.3 == lock_mouse
            &&& s.4 == ts
            &&& s.5 == task_loop
            &&& s.8 == autostart
            &&& s.9 == auto_exec
            &&& s.10 == auto_exec_boot
        }),
{
    reveal_strlit("interval_ms");
    reveal_strlit("hotkey");
    reveal_strlit("lock_kb");
    reveal_strlit("lock_mouse");
    reveal_strlit("tasks");
    reveal_strlit("task_loop");
    reveal_strlit("autostart");
    reveal_strlit("auto_exec");
    reveal_strlit("auto_exec_boot");
    assert("task_loop"@[1] != "autostart"@[1]);
    assert("task_loop"@[1] != "auto_exec"@[1]);
    assert("autostart"@[4] != "auto_exec"@[4]);
    assert("interval_ms"@.len() != "hotkey"@.len());
    assert("interval_ms"@.len() != "lock_kb"@.len());
    assert("interval_ms"@.len() != "lock_mouse"@.len());
    assert("interval_ms"@.len() != "tasks"@.len());
    assert("interval_ms"@.len() != "task_loop"@.len());
    assert("interval_ms"@.len() != "autostart"@.len());
    assert("interval_ms"@.len() != "auto_exec"@.len());
    assert("interval_ms"@.len() != "auto_exec_boot"@.len());
    assert("hotkey"@.len() != "lock_kb"@.len());
    assert("hotkey"@.len() != "lock_mouse"@.len());
    assert("hotkey"@.len() != "tasks"@.len());
    assert("hotkey"@.len() != "task_loop"@.len());
    assert("hotkey"@.len() != "autostart"@.len());
    assert("hotkey"@.len() != "auto_exec"@.len());
    assert("hotkey"@.len() != "auto_exec_boot"@.len());
    let w = saved_settings(v, ms, vk, lock_kb, lock_mouse, ts, task_loop, autostart, auto_exec, auto_exec_boot);
    assert(w.config["interval_ms"@] == dec(ms as nat));
    assert(w.config["hotkey"@] == dec_signed(vk as int));
    assert(w.config["lock_kb"@] == flag_text(lock_kb));
    assert(w.config["lock_mouse"@] == flag_text(lock_mouse));
    assert(w.config["tasks"@] == encode_spec(ts));
    assert(w.config["task_loop"@] == flag_text(task_loop));
    assert(w.config["autostart"@] == flag_text(autostart));
    assert(w.config["auto_exec"@] == flag_text(auto_exec));
    lemma_parse_dec(ms as nat, u64::MAX as nat);
    lemma_parse_dec_signed_i32(vk);
    lemma_tasks_roundtrip(ts);
    reveal_strlit("1");
    reveal_strlit("0");
    assert("0"@ != "1"@) by {
        assert("0"@[0] != "1"@[0]);
    }
}

/// An empty store holds the defaults.
pub proof fn lemma_defaults(v: StoreView)
    requires
        v.config == Map::<Seq<char>, Seq<char>>::empty(),
    ensures
        settings_spec(v).0 == 1000,
        settings_spec(v).1 == 0x75,
        !settings_spec(v).2,
        !settings_spec(v).3,
        settings_spec(v).4 == Seq::<TaskStep>::empty(),
        settings_spec(v).5,
        !settings_spec(v).6,
        settings_spec(v).7,
        !settings_spec(v).8,
        !settings_spec(v).9,
        !settings_spec(v).10,
{
    lemma_parse_dec(1000, u64::MAX as nat);
    lemma_parse_dec_signed_i32(0x75);
    reveal_strlit("1");
    reveal_strlit("0");
    assert("0"@ != "1"@) by {
        assert("0"@[0] != "1"@[0]);
    }
}

/// Ids are handed out in turn: saving a message moves the next message id
/// on by one and leaves the next image id, saving an image does the
/// converse, and deleting a message leaves both.
pub proof fn lemma_next_ids(v: StoreView, text: Seq<char>, data: Seq<u8>, id: u64)
    ensures
        next_msg_id(v) < u64::MAX ==> next_msg_id(save_msg_spec(v, text).0) == next_msg_id(v) + 1,
        next_image_id(save_msg_spec(v, text).0) == next_image_id(v),
        next_image_id(v) < u64::MAX ==> next_image_id(save_image_spec(v, data).0) == next_image_id(v) + 1,
        next_msg_id(save_image_spec(v, data).0) == next_msg_id(v),
        next_msg_id(StoreView { config: v.config.remove(msg_key(id)), images: v.images }) == next_msg_id(v),
        next_image_id(StoreView { config: v.config.remove(msg_key(id)), images: v.images }) == next_image_id(v),
{
    reveal_strlit("msg_");
    reveal_strlit("next_msg_id");
    reveal_strlit("next_image_id");
    let mid = next_msg_id(v);
    let iid = next_image_id(v);
    assert(msg_key(mid)[0] == 'm' && next_msg_key()[0] == 'n' && next_image_key()[0] == 'n');
    assert(msg_key(id)[0] == 'm');
    assert(next_msg_key()[5] != next_image_key()[5]);
    assert(msg_key(mid) != next_image_key());
    assert(msg_key(id) != next_image_key());
    assert(msg_key(id) != next_msg_key());
    assert(next_msg_key() != next_image_key());
    if mid < u64::MAX {
        lemma_parse_dec((mid + 1) as nat, u64::MAX as nat);
    }
    if iid < u64::MAX {
        lemma_parse_dec((iid + 1) as nat, u64::MAX as nat);
    }
}

} // verus!
