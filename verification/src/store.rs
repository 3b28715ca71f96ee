//! The settings store: text settings by text key, and image blobs by id.
//!
//! The store is held in memory; every write is also appended to a log of
//! pending changes, which the application drains and applies to the
//! database file, so that the file always follows the store.

use vstd::prelude::*;
use crate::text::str_eq;

verus! {

/// The map a list of entries stands for: a later entry for a key overrides
/// an earlier one.
pub open spec fn map_of<K, V>(s: Seq<(K, V)>) -> Map<K, V>
    decreases s.len(),
{
    if s.len() == 0 {
        Map::empty()
    } else {
        map_of(s.drop_last()).insert(s.last().0, s.last().1)
    }
}

/// The entries whose key is not `k`, in order.
pub open spec fn without_key<K, V>(s: Seq<(K, V)>, k: K) -> Seq<(K, V)>
    decreases s.len(),
{
    if s.len() == 0 {
        Seq::empty()
    } else if s.last().0 == k {
        without_key(s.drop_last(), k)
    } else {
        without_key(s.drop_last(), k).push(s.last())
    }
}

proof fn lemma_without_key<K, V>(s: Seq<(K, V)>, k: K)
    ensures
        map_of(without_key(s, k)) == map_of(s).remove(k),
    decreases s.len(),
{
    if s.len() > 0 {
        lemma_without_key(s.drop_last(), k);
        let w = without_key(s.drop_last(), k);
        if s.last().0 != k {
            assert(w.push(s.last()).drop_last() =~= w);
        }
        assert(map_of(without_key(s, k)) =~= map_of(s).remove(k));
    } else {
        assert(map_of(s).remove(k) =~= Map::<K, V>::empty());
    }
}

/// The view of one text entry.
pub open spec fn text_entry_view(e: (String, String)) -> (Seq<char>, Seq<char>) {
    (e.0@, e.1@)
}

/// The view of one image entry.
pub open spec fn image_entry_view(e: (u64, Vec<u8>)) -> (u64, Seq<u8>) {
    (e.0, e.1@)
}

/// One write to the store, as the database must replay it.
#[derive(Debug)]
pub enum StoreChange {
    /// The setting `key` now has this value.
    SetValue(String, String),
    /// The setting `key` is gone.
    Remove(String),
    /// The image with this id now has these bytes.
    PutImage(u64, Vec<u8>),
    /// The image with this id is gone.
    RemoveImage(u64),
}

/// What a change says, in terms of views.
pub enum ChangeView {
    SetValue(Seq<char>, Seq<char>),
    Remove(Seq<char>),
    PutImage(u64, Seq<u8>),
    RemoveImage(u64),
}

/// The view of a change.
pub open spec fn change_view(c: StoreChange) -> ChangeView {
    match c {
        StoreChange::SetValue(k, v) => ChangeView::SetValue(k@, v@),
        StoreChange::Remove(k) => ChangeView::Remove(k@),
        StoreChange::PutImage(id, d) => ChangeView::PutImage(id, d@),
        StoreChange::RemoveImage(id) => ChangeView::RemoveImage(id),
    }
}

/// The settings and images a store holds.
pub struct StoreView {
    pub config: Map<Seq<char>, Seq<char>>,
    pub images: Map<u64, Seq<u8>>,
}

/// What a database that holds `v` holds once it has applied change `c`.
pub open spec fn apply_change(v: StoreView, c: ChangeView) -> StoreView {
    match c {
        ChangeView::SetValue(k, x) => StoreView { config: v.config.insert(k, x), images: v.images },
        ChangeView::Remove(k) => StoreView { config: v.config.remove(k), images: v.images },
        ChangeView::PutImage(id, d) => StoreView { config: v.config, images: v.images.insert(id, d) },
        ChangeView::RemoveImage(id) => StoreView { config: v.config, images: v.images.remove(id) },
    }
}

/// What a database that holds `v` holds once it has applied the changes
/// `cs`, oldest first.
pub open spec fn replay(v: StoreView, cs: Seq<ChangeView>) -> StoreView
    decreases cs.len(),
{
    if cs.len() == 0 {
        v
    } else {
        apply_change(replay(v, cs.drop_last()), cs.last())
    }
}

proof fn lemma_replay_concat(v: StoreView, a: Seq<ChangeView>, b: Seq<ChangeView>)
    ensures
        replay(v, a + b) == replay(replay(v, a), b),
    decreases b.len(),
{
    if b.len() == 0 {
        assert(a + b =~= a);
    } else {
        lemma_replay_concat(v, a, b.drop_last());
        assert((a + b).drop_last() =~= a + b.drop_last());
        assert((a + b).last() == b.last());
    }
}

/// The settings store.
pub struct ConfigStore {
    entries: Vec<(String, String)>,
    images: Vec<(u64, Vec<u8>)>,
    changes: Vec<StoreChange>,
}

impl View for ConfigStore {
    type V = StoreView;

    closed spec fn view(&self) -> StoreView {
        StoreView {
            config: map_of(self.entries@.map_values(|e: (String, String)| text_entry_view(e))),
            images: map_of(self.images@.map_values(|e: (u64, Vec<u8>)| image_entry_view(e))),
        }
    }
}

fn copy_bytes(v: &Vec<u8>) -> (r: Vec<u8>)
    ensures
        r@ == v@,
{
    let mut r: Vec<u8> = Vec::new();
    let mut i: usize = 0;
    while i < v.len()
        invariant
            0 <= i <= v@.len(),
            r@ == v@.take(i as int),
        decreases v@.len() - i,
    {
        r.push(v[i]);
        i = i + 1;
        assert(r@ =~= v@.take(i as int));
    }
    assert(v@.take(v@.len() as int) =~= v@);
    r
}

fn text_of(s: &str) -> (r: String)
    ensures
        r@ == s@,
{
    String::from_str(s)
}

impl ConfigStore {
    /// The pending changes, oldest first.
    pub closed spec fn pending(&self) -> Seq<ChangeView> {
        self.changes@.map_values(|c: StoreChange| change_view(c))
    }

    /// Every write from `before` to `self` is in the log: the pending
    /// changes grew by some changes, and replaying them onto what `before`
    /// holds gives what `self` holds. A database file that followed
    /// `before` follows `self` once it has applied the new changes.
    pub open spec fn logged_since(&self, before: ConfigStore) -> bool {
        exists|cs: Seq<ChangeView>|
            #[trigger] replay(before@, cs) == self@ && self.pending() == before.pending() + cs
    }

    /// A store that was not written to has logged nothing new.
    pub proof fn lemma_logged_refl(s: ConfigStore)
        ensures
            s.logged_since(s),
    {
        let cs = Seq::<ChangeView>::empty();
        assert(replay(s@, cs) == s@);
        assert(s.pending() =~= s.pending() + cs);
    }

    /// Logging is kept along a chain of writes.
    pub proof fn lemma_logged_trans(a: ConfigStore, b: ConfigStore, c: ConfigStore)
        requires
            b.logged_since(a),
            c.logged_since(b),
        ensures
            c.logged_since(a),
    {
        let cs1 = choose|cs: Seq<ChangeView>| #[trigger] replay(a@, cs) == b@ && b.pending() == a.pending() + cs;
        let cs2 = choose|cs: Seq<ChangeView>| #[trigger] replay(b@, cs) == c@ && c.pending() == b.pending() + cs;
        lemma_replay_concat(a@, cs1, cs2);
        assert(c.pending() =~= a.pending() + (cs1 + cs2));
        assert(replay(a@, cs1 + cs2) == c@);
    }

    /// The database file follows the store: a file that held what `start`
    /// held when the log was last drained (or the store was made) holds
    /// what the store holds once it has applied the pending changes.
    pub proof fn lemma_file_follows_store(start: ConfigStore, s: ConfigStore)
        requires
            start.pending() == Seq::<ChangeView>::empty(),
            s.logged_since(start),
        ensures
            replay(start@, s.pending()) == s@,
    {
        let cs = choose|cs: Seq<ChangeView>| #[trigger] replay(start@, cs) == s@ && s.pending() == start.pending() + cs;
        assert(s.pending() =~= cs);
    }

    proof fn lemma_logged_one(a: ConfigStore, b: ConfigStore, c: ChangeView)
        requires
            b.pending() == a.pending().push(c),
            b@ == apply_change(a@, c),
        ensures
            b.logged_since(a),
    {
        let cs = seq![c];
        assert(cs.drop_last() =~= Seq::<ChangeView>::empty());
        assert(replay(a@, Seq::<ChangeView>::empty()) == a@);
        assert(cs.last() == c);
        assert(replay(a@, cs) == b@);
        assert(b.pending() =~= a.pending() + cs);
    }

    /// An empty store with no pending changes.
    pub fn new() -> (s: Self)
        ensures
            s@.config == Map::<Seq<char>, Seq<char>>::empty(),
            s@.images == Map::<u64, Seq<u8>>::empty(),
            s.pending() == Seq::<ChangeView>::empty(),
    {
        let s = ConfigStore { entries: Vec::new(), images: Vec::new(), changes: Vec::new() };
        assert(s@.config =~= Map::<Seq<char>, Seq<char>>::empty());
        assert(s@.images =~= Map::<u64, Seq<u8>>::empty());
        assert(s.pending() =~= Seq::<ChangeView>::empty());
        s
    }

    /// A store holding the given rows (as read from the database; a later
    /// row for a key overrides an earlier one), with no pending changes.
    pub fn from_rows(config: Vec<(String, String)>, images: Vec<(u64, Vec<u8>)>) -> (s: Self)
        ensures
            s@.config == map_of(config@.map_values(|e: (String, String)| text_entry_view(e))),
            s@.images == map_of(images@.map_values(|e: (u64, Vec<u8>)| image_entry_view(e))),
            s.pending() == Seq::<ChangeView>::empty(),
    {
        let s = ConfigStore { entries: config, images, changes: Vec::new() };
        assert(s.pending() =~= Seq::<ChangeView>::empty());
        s
    }

    /// The value of setting `key`, if it is set.
    pub fn get(&self, key: &str) -> (r: Option<String>)
        ensures
            match r {
                Some(v) => self@.config.contains_key(key@) && v@ == self@.config[key@],
                None => !self@.config.contains_key(key@),
            },
    {
        let ghost es = self.entries@.map_values(|e: (String, String)| text_entry_view(e));
        let mut i: usize = self.entries.len();
        while i > 0
            invariant
                es == self.entries@.map_values(|e: (String, String)| text_entry_view(e)),
                0 <= i <= self.entries@.len(),
                forall|j: int| i <= j < es.len() ==> es[j].0 != key@,
            decreases i,
        {
            let e = &self.entries[i - 1];
            if str_eq(e.0.as_str(), key) {
                proof {
                    lemma_map_of_last_match(es, key@, i - 1);
                }
                return Some(e.1.clone());
            }
            i = i - 1;
        }
        proof {
            lemma_map_of_no_match(es, key@);
        }
        None
    }

    /// Sets `key` to `value` and logs the write.
    pub fn set(&mut self, key: &str, value: &str)
        ensures
            final(self)@.config == old(self)@.config.insert(key@, value@),
            final(self)@.images == old(self)@.images,
            final(self).pending() == old(self).pending().push(ChangeView::SetValue(key@, value@)),
            final(self).logged_since(*old(self)),
    {
        self.drop_entries(key);
        let ghost before = self.entries@;
        self.entries.push((text_of(key), text_of(value)));
        proof {
            let es = self.entries@.map_values(|e: (String, String)| text_entry_view(e));
            assert(es.drop_last() =~= before.map_values(|e: (String, String)| text_entry_view(e)));
            assert(self@.config =~= old(self)@.config.insert(key@, value@));
        }
        let ghost pend = self.pending();
        self.changes.push(StoreChange::SetValue(text_of(key), text_of(value)));
        assert(self.pending() =~= pend.push(ChangeView::SetValue(key@, value@)));
        proof {
            assert(self@ == apply_change(old(self)@, ChangeView::SetValue(key@, value@)));
            ConfigStore::lemma_logged_one(*old(self), *self, ChangeView::SetValue(key@, value@));
        }
    }

    /// Removes `key` and logs the removal.
    pub fn remove(&mut self, key: &str)
        ensures
            final(self)@.config == old(self)@.config.remove(key@),
            final(self)@.images == old(self)@.images,
            final(self).pending() == old(self).pending().push(ChangeView::Remove(key@)),
            final(self).logged_since(*old(self)),
    {
        self.drop_entries(key);
        let ghost pend = self.pending();
        self.changes.push(StoreChange::Remove(text_of(key)));
        assert(self.pending() =~= pend.push(ChangeView::Remove(key@)));
        proof {
            assert(self@ == apply_change(old(self)@, ChangeView::Remove(key@)));
            ConfigStore::lemma_logged_one(*old(self), *self, ChangeView::Remove(key@));
        }
    }

    fn drop_entries(&mut self, key: &str)
        ensures
            final(self)@.config == old(self)@.config.remove(key@),
            final(self)@.images == old(self)@.images,
            final(self).pending() == old(self).pending(),
    {
        let ghost es = self.entries@.map_values(|e: (String, String)| text_entry_view(e));
        let mut kept: Vec<(String, String)> = Vec::new();
        let mut i: usize = 0;
        while i < self.entries.len()
            invariant
                es == self.entries@.map_values(|e: (String, String)| text_entry_view(e)),
                self.entries@ == old(self).entries@,
                0 <= i <= self.entries@.len(),
                kept@.map_values(|e: (String, String)| text_entry_view(e)) == without_key(es.take(i as int), key@),
            decreases self.entries@.len() - i,
        {
            let ghost kv = kept@;
            proof {
                assert(es.take(i + 1).drop_last() =~= es.take(i as int));
                assert(es.take(i + 1).last() == es[i as int]);
            }
            if !str_eq(self.entries[i].0.as_str(), key) {
                let k = self.entries[i].0.clone();
                let v = self.entries[i].1.clone();
                kept.push((k, v));
                assert(kept@.map_values(|e: (String, String)| text_entry_view(e))
                    =~= kv.map_values(|e: (String, String)| text_entry_view(e)).push(es[i as int]));
            }
            i = i + 1;
        }
        proof {
            assert(es.take(es.len() as int) =~= es);
            lemma_without_key(es, key@);
        }
        self.entries = kept;
    }

    /// The bytes of image `id`, if it is stored.
    pub fn image(&self, id: u64) -> (r: Option<Vec<u8>>)
        ensures
            match r {
                Some(d) => self@.images.contains_key(id) && d@ == self@.images[id],
                None => !self@.images.contains_key(id),
            },
    {
        let ghost es = self.images@.map_values(|e: (u64, Vec<u8>)| image_entry_view(e));
        let mut i: usize = self.images.len();
        while i > 0
            invariant
                es == self.images@.map_values(|e: (u64, Vec<u8>)| image_entry_view(e)),
                0 <= i <= self.images@.len(),
                forall|j: int| i <= j < es.len() ==> es[j].0 != id,
            decreases i,
        {
            if self.images[i - 1].0 == id {
                proof {
                    lemma_map_of_last_match(es, id, i - 1);
                }
                return Some(copy_bytes(&self.images[i - 1].1));
            }
            i = i - 1;
        }
        proof {
            lemma_map_of_no_match(es, id);
        }
        None
    }

    /// Stores image `id` and logs the write.
    pub fn put_image(&mut self, id: u64, data: &[u8])
        ensures
            final(self)@.images == old(self)@.images.insert(id, data@),
            final(self)@.config == old(self)@.config,
            final(self).pending() == old(self).pending().push(ChangeView::PutImage(id, data@)),
            final(self).logged_since(*old(self)),
    {
        self.drop_image(id);
        let ghost before = self.images@;
        let mut copy: Vec<u8> = Vec::new();
        let mut i: usize = 0;
        while i < data.len()
            invariant
                0 <= i <= data@.len(),
                copy@ == data@.take(i as int),
            decreases data@.len() - i,
        {
            copy.push(data[i]);
            i = i + 1;
            assert(copy@ =~= data@.take(i as int));
        }
        assert(data@.take(data@.len() as int) =~= data@);
        let logged = copy_bytes(&copy);
        self.images.push((id, copy));
        proof {
            let es = self.images@.map_values(|e: (u64, Vec<u8>)| image_entry_view(e));
            assert(es.drop_last() =~= before.map_values(|e: (u64, Vec<u8>)| image_entry_view(e)));
            assert(self@.images =~= old(self)@.images.insert(id, data@));
        }
        let ghost pend = self.pending();
        self.changes.push(StoreChange::PutImage(id, logged));
        assert(self.pending() =~= pend.push(ChangeView::PutImage(id, data@)));
        proof {
            assert(self@ == apply_change(old(self)@, ChangeView::PutImage(id, data@)));
            ConfigStore::lemma_logged_one(*old(self), *self, ChangeView::PutImage(id, data@));
        }
    }

    /// Removes image `id` and logs the removal.
    pub fn remove_image(&mut self, id: u64)
        ensures
            final(self)@.images == old(self)@.images.remove(id),
            final(self)@.config == old(self)@.config,
            final(self).pending() == old(self).pending().push(ChangeView::RemoveImage(id)),
            final(self).logged_since(*old(self)),
    {
        self.drop_image(id);
        let ghost pend = self.pending();
        self.changes.push(StoreChange::RemoveImage(id));
        assert(self.pending() =~= pend.push(ChangeView::RemoveImage(id)));
        proof {
            assert(self@ == apply_change(old(self)@, ChangeView::RemoveImage(id)));
            ConfigStore::lemma_logged_one(*old(self), *self, ChangeView::RemoveImage(id));
        }
    }

    fn drop_image(&mut self, id: u64)
        ensures
            final(self)@.images == old(self)@.images.remove(id),
            final(self)@.config == old(self)@.config,
            final(self).pending() == old(self).pending(),
    {
        let ghost es = self.images@.map_values(|e: (u64, Vec<u8>)| image_entry_view(e));
        let mut kept: Vec<(u64, Vec<u8>)> = Vec::new();
        let mut i: usize = 0;
        while i < self.images.len()
            invariant
                es == self.images@.map_values(|e: (u64, Vec<u8>)| image_entry_view(e)),
                self.images@ == old(self).images@,
                0 <= i <= self.images@.len(),
                kept@.map_values(|e: (u64, Vec<u8>)| image_entry_view(e)) == without_key(es.take(i as int), id),
            decreases self.images@.len() - i,
        {
            let ghost kv = kept@;
            proof {
                assert(es.take(i + 1).drop_last() =~= es.take(i as int));
                assert(es.take(i + 1).last() == es[i as int]);
            }
            if self.images[i].0 != id {
                let d = copy_bytes(&self.images[i].1);
                kept.push((self.images[i].0, d));
                assert(kept@.map_values(|e: (u64, Vec<u8>)| image_entry_view(e))
                    =~= kv.map_values(|e: (u64, Vec<u8>)| image_entry_view(e)).push(es[i as int]));
            }
            i = i + 1;
        }
        proof {
            assert(es.take(es.len() as int) =~= es);
            lemma_without_key(es, id);
        }
        self.images = kept;
    }

    /// Hands out the pending changes, oldest first, and forgets them.
    pub fn take_changes(&mut self) -> (r: Vec<StoreChange>)
        ensures
            r@.map_values(|c: StoreChange| change_view(c)) == old(self).pending(),
            final(self).pending() == Seq::<ChangeView>::empty(),
            final(self)@ == old(self)@,
    {
        let mut r: Vec<StoreChange> = Vec::new();
        std::mem::swap(&mut r, &mut self.changes);
        assert(self.pending() =~= Seq::<ChangeView>::empty());
        r
    }
}

proof fn lemma_map_of_last_match<K, V>(es: Seq<(K, V)>, k: K, i: int)
    requires
        0 <= i < es.len(),
        es[i].0 == k,
        forall|j: int| i < j < es.len() ==> es[j].0 != k,
    ensures
        map_of(es).contains_key(k),
        map_of(es)[k] == es[i].1,
    decreases es.len(),
{
    if i < es.len() - 1 {
        lemma_map_of_last_match(es.drop_last(), k, i);
    }
}

proof fn lemma_map_of_no_match<K, V>(es: Seq<(K, V)>, k: K)
    requires
        forall|j: int| 0 <= j < es.len() ==> es[j].0 != k,
    ensures
        !map_of(es).contains_key(k),
    decreases es.len(),
{
    if es.len() > 0 {
        lemma_map_of_no_match(es.drop_last(), k);
    }
}

} // verus!
