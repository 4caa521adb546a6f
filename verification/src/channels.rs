//! Maps keyed by text: the channel of each call leg, and the gRPC client of
//! each subscriber connection.
use vstd::prelude::*;
use crate::text::str_eq;
use crate::payload::{AddressPayload, DialogRequestPayloadType, bare_request, eval, AUDIO_END};

verus! {

/// One key and its value.
pub struct Entry<T> {
    pub key: String,
    pub value: T,
}

/// A finite map from text keys to values, with each key present at most once.
pub struct StringMap<T> {
    entries: Vec<Entry<T>>,
}

impl<T> View for StringMap<T> {
    type V = Map<Seq<char>, T>;

    open spec fn view(&self) -> Map<Seq<char>, T> {
        self.as_map()
    }
}

impl<T> StringMap<T> {
    /// The key of the entry at position `i`.
    pub closed spec fn key_at(&self, i: int) -> Seq<char> {
        self.entries@[i].key@
    }

    /// Whether some entry has key `k`.
    pub closed spec fn has_key(&self, k: Seq<char>) -> bool {
        exists|i: int| 0 <= i < self.entries@.len() && #[trigger] self.key_at(i) == k
    }

    /// The position of the entry with key `k`.
    pub closed spec fn index_of(&self, k: Seq<char>) -> int {
        choose|i: int| 0 <= i < self.entries@.len() && #[trigger] self.key_at(i) == k
    }

    /// No key occurs twice.
    #[verifier::type_invariant]
    pub closed spec fn wf(&self) -> bool {
        forall|i: int, j: int|
            0 <= i < self.entries@.len() && 0 <= j < self.entries@.len() && i != j
                ==> #[trigger] self.key_at(i) != #[trigger] self.key_at(j)
    }

    /// The map that the entries stand for.
    pub closed spec fn as_map(&self) -> Map<Seq<char>, T> {
        Map::new(|k: Seq<char>| self.has_key(k), |k: Seq<char>| self.entries@[self.index_of(k)].value)
    }

    proof fn lemma_index(&self, i: int)
        requires
            self.wf(),
            0 <= i < self.entries@.len(),
        ensures
            self.has_key(self.key_at(i)),
            self.index_of(self.key_at(i)) == i,
            self.view().dom().contains(self.key_at(i)),
            self.view()[self.key_at(i)] == self.entries@[i].value,
    {
        assert(self.has_key(self.key_at(i)));
        let j = self.index_of(self.key_at(i));
        assert(0 <= j < self.entries@.len() && self.key_at(j) == self.key_at(i));
    }

    /// An empty map.
    pub fn new() -> (r: Self)
        ensures
            r.view() == Map::<Seq<char>, T>::empty(),
    {
        let r = StringMap { entries: Vec::new() };
        assert(r.view() =~= Map::<Seq<char>, T>::empty());
        r
    }

    /// Number of keys.
    pub fn len(&self) -> (n: usize)
        ensures
            n == self.view().len(),
    {
        proof { use_type_invariant(&*self); self.lemma_len(); }
        self.entries.len()
    }

    proof fn lemma_len(&self)
        requires
            self.wf(),
        ensures
            self.view().dom().finite(),
            self.view().len() == self.entries@.len(),
    {
        let n = self.entries@.len() as int;
        lemma_prefix_keys_len(self, n);
        assert(self.view().dom() =~= Set::new(|k: Seq<char>| exists|i: int| 0 <= i < n && #[trigger] self.key_at(i) == k));
    }

    /// Position of the entry with key `k`, if there is one.
    fn find(&self, k: &str) -> (r: Option<usize>)
        requires
            self.wf(),
        ensures
            r matches Some(i) ==> i < self.entries@.len() && self.key_at(i as int) == k@,
            r is None ==> !self.has_key(k@),
    {
        let n = self.entries.len();
        let mut i: usize = 0;
        while i < n
            invariant
                n == self.entries@.len(),
                i <= n,
                forall|j: int| 0 <= j < i ==> #[trigger] self.key_at(j) != k@,
            decreases n - i,
        {
            if str_eq(self.entries[i].key.as_str(), k) {
                return Some(i);
            }
            i = i + 1;
        }
        None
    }

    /// Adds key `k` with a value made by `make` unless `k` is already a key;
    /// says whether it added it.
    pub fn get_or_insert_with<F: FnOnce() -> T>(&mut self, k: String, make: F) -> (inserted: bool)
        requires
            call_requires(make, ()),
        ensures
            inserted == !old(self).view().dom().contains(k@),
            !inserted ==> final(self).view() == old(self).view(),
            inserted ==> exists|v: T| call_ensures(make, (), v) && final(self).view() == old(self).view().insert(k@, v),
    {
        if self.contains_key(k.as_str()) {
            false
        } else {
            let v = make();
            self.insert(k, v);
            true
        }
    }

    /// Whether `k` is a key.
    pub fn contains_key(&self, k: &str) -> (r: bool)
        ensures
            r == self.view().dom().contains(k@),
    {
        proof { use_type_invariant(&*self); }
        self.find(k).is_some()
    }

    /// The value of key `k`, if there is one.
    pub fn get(&self, k: &str) -> (r: Option<&T>)
        ensures
            r is Some <==> self.view().dom().contains(k@),
            r matches Some(v) ==> *v == self.view()[k@],
    {
        proof { use_type_invariant(&*self); }
        match self.find(k) {
            Some(i) => {
                proof { self.lemma_index(i as int); }
                Some(&self.entries[i].value)
            },
            None => None,
        }
    }

    /// Sets the value of key `k`, and returns the value it had before, if any.
    pub fn insert(&mut self, k: String, v: T) -> (r: Option<T>)
        ensures
            final(self).view() == old(self).view().insert(k@, v),
            r is Some <==> old(self).view().dom().contains(k@),
            r matches Some(o) ==> o == old(self).view()[k@],
    {
        proof { use_type_invariant(&*self); }
        let ghost old_self = *self;
        let found = self.find(k.as_str());
        let mut entries: Vec<Entry<T>> = Vec::new();
        std::mem::swap(&mut entries, &mut self.entries);
        match found {
            Some(i) => {
                proof { old_self.lemma_index(i as int); }
                let ghost kv = k@;
                let old_entry = entries.remove(i);
                entries.insert(i, Entry { key: k, value: v });
                let ghost new_self = StringMap::<T> { entries: entries };
                proof {
                    assert(new_self.entries@ =~= old_self.entries@.update(i as int, new_self.entries@[i as int]));
                    assert(new_self.key_at(i as int) == kv);
                    assert(new_self.wf()) by {
                        assert forall|a: int, b: int|
                            0 <= a < new_self.entries@.len() && 0 <= b < new_self.entries@.len() && a != b
                            implies #[trigger] new_self.key_at(a) != #[trigger] new_self.key_at(b) by {
                            assert(new_self.key_at(a) == old_self.key_at(a));
                            assert(new_self.key_at(b) == old_self.key_at(b));
                            assert(old_self.key_at(a) != old_self.key_at(b));
                        }
                    }
                    new_self.lemma_map_after_update(old_self, i as int);
                }
                self.entries = entries;
                Some(old_entry.value)
            },
            None => {
                entries.push(Entry { key: k, value: v });
                let ghost new_self = StringMap::<T> { entries: entries };
                proof {
                    let n = old_self.entries@.len();
                    assert(new_self.entries@.drop_last() =~= old_self.entries@);
                    assert(new_self.wf()) by {
                        assert forall|a: int, b: int|
                            0 <= a < new_self.entries@.len() && 0 <= b < new_self.entries@.len() && a != b
                            implies #[trigger] new_self.key_at(a) != #[trigger] new_self.key_at(b) by {
                            if a == n {
                                assert(old_self.key_at(b) == new_self.key_at(b));
                            } else if b == n {
                                assert(old_self.key_at(a) == new_self.key_at(a));
                            } else {
                                assert(old_self.key_at(a) == new_self.key_at(a));
                                assert(old_self.key_at(b) == new_self.key_at(b));
                            }
                        }
                    }
                    new_self.lemma_map_after_push(old_self);
                }
                self.entries = entries;
                None
            },
        }
    }

    /// Removes key `k`, and returns the value it had, if any.
    pub fn remove(&mut self, k: &str) -> (r: Option<T>)
        ensures
            final(self).view() == old(self).view().remove(k@),
            r is Some <==> old(self).view().dom().contains(k@),
            r matches Some(o) ==> o == old(self).view()[k@],
    {
        proof { use_type_invariant(&*self); }
        let ghost old_self = *self;
        match self.find(k) {
            Some(i) => {
                proof { old_self.lemma_index(i as int); }
                let mut entries: Vec<Entry<T>> = Vec::new();
                std::mem::swap(&mut entries, &mut self.entries);
                let e = entries.remove(i);
                let ghost new_self = StringMap::<T> { entries: entries };
                proof { new_self.lemma_map_after_remove(old_self, i as int); }
                self.entries = entries;
                Some(e.value)
            },
            None => {
                proof {
                    assert(self.view() =~= old_self.view().remove(k@));
                }
                None
            },
        }
    }

    /// Removes every key, and returns the entries that were there, each key once.
    pub fn drain(&mut self) -> (r: Vec<Entry<T>>)
        ensures
            final(self).view() == Map::<Seq<char>, T>::empty(),
            r@.len() == old(self).view().len(),
            forall|i: int| 0 <= i < r@.len() ==> old(self).view().dom().contains(#[trigger] r@[i].key@)
                && old(self).view()[r@[i].key@] == r@[i].value,
            forall|k: Seq<char>| old(self).view().dom().contains(k)
                ==> exists|i: int| 0 <= i < r@.len() && #[trigger] r@[i].key@ == k,
            forall|i: int, j: int| 0 <= i < r@.len() && 0 <= j < r@.len() && i != j
                ==> #[trigger] r@[i].key@ != #[trigger] r@[j].key@,
    {
        proof { use_type_invariant(&*self); }
        let ghost old_self = *self;
        proof { old_self.lemma_len(); }
        let mut taken: Vec<Entry<T>> = Vec::new();
        std::mem::swap(&mut taken, &mut self.entries);
        proof {
            assert(self.view() =~= Map::<Seq<char>, T>::empty());
            assert forall|i: int| 0 <= i < taken@.len() implies old_self.view().dom().contains(#[trigger] taken@[i].key@)
                && old_self.view()[taken@[i].key@] == taken@[i].value by {
                old_self.lemma_index(i);
            }
            assert forall|i: int, j: int| 0 <= i < taken@.len() && 0 <= j < taken@.len() && i != j
                implies #[trigger] taken@[i].key@ != #[trigger] taken@[j].key@ by {
                assert(old_self.key_at(i) != old_self.key_at(j));
            }
            assert forall|k: Seq<char>| old_self.view().dom().contains(k)
                implies exists|i: int| 0 <= i < taken@.len() && #[trigger] taken@[i].key@ == k by {
                let i = choose|i: int| 0 <= i < old_self.entries@.len() && #[trigger] old_self.key_at(i) == k;
                assert(taken@[i].key@ == k);
            }
        }
        taken
    }

    proof fn lemma_map_after_remove(&self, old_self: Self, i: int)
        requires
            old_self.wf(),
            0 <= i < old_self.entries@.len(),
            self.entries@ == old_self.entries@.remove(i),
        ensures
            self.wf(),
            self.view() == old_self.view().remove(old_self.key_at(i)),
    {
        let k = old_self.key_at(i);
        assert forall|a: int| 0 <= a < self.entries@.len() implies #[trigger] self.key_at(a)
            == old_self.key_at(if a < i { a } else { a + 1 }) by {}
        assert(self.wf()) by {
            assert forall|a: int, b: int|
                0 <= a < self.entries@.len() && 0 <= b < self.entries@.len() && a != b
                implies #[trigger] self.key_at(a) != #[trigger] self.key_at(b) by {
                let a1 = if a < i { a } else { a + 1 };
                let b1 = if b < i { b } else { b + 1 };
                assert(old_self.key_at(a1) != old_self.key_at(b1));
            }
        }
        let m = old_self.view().remove(k);
        assert forall|x: Seq<char>| #[trigger] self.view().dom().contains(x) <==> m.dom().contains(x) by {
            if self.has_key(x) {
                let j = choose|j: int| 0 <= j < self.entries@.len() && #[trigger] self.key_at(j) == x;
                let j1 = if j < i { j } else { j + 1 };
                assert(old_self.key_at(j1) == x);
                assert(old_self.key_at(j1) != old_self.key_at(i));
            }
            if m.dom().contains(x) {
                let j = choose|j: int| 0 <= j < old_self.entries@.len() && #[trigger] old_self.key_at(j) == x;
                assert(j != i);
                let j0 = if j < i { j } else { j - 1 };
                assert(self.key_at(j0) == x);
            }
        }
        assert forall|x: Seq<char>| #[trigger] self.view().dom().contains(x) implies self.view()[x] == m[x] by {
            let j = choose|j: int| 0 <= j < self.entries@.len() && #[trigger] self.key_at(j) == x;
            self.lemma_index(j);
            let j1 = if j < i { j } else { j + 1 };
            assert(old_self.key_at(j1) == x);
            old_self.lemma_index(j1);
        }
        assert(self.view() =~= m);
    }

    proof fn lemma_map_after_update(&self, old_self: Self, i: int)
        requires
            old_self.wf(),
            self.wf(),
            0 <= i < old_self.entries@.len(),
            self.entries@.len() == old_self.entries@.len(),
            self.key_at(i) == old_self.key_at(i),
            forall|j: int| 0 <= j < self.entries@.len() && j != i ==> self.entries@[j] == old_self.entries@[j],
        ensures
            self.view() == old_self.view().insert(self.key_at(i), self.entries@[i].value),
    {
        let k = self.key_at(i);
        let m = old_self.view().insert(k, self.entries@[i].value);
        assert forall|x: Seq<char>| #[trigger] self.view().dom().contains(x) <==> m.dom().contains(x) by {
            if self.has_key(x) {
                let j = choose|j: int| 0 <= j < self.entries@.len() && #[trigger] self.key_at(j) == x;
                if j != i { assert(old_self.key_at(j) == x); }
            }
            if old_self.has_key(x) {
                let j = choose|j: int| 0 <= j < old_self.entries@.len() && #[trigger] old_self.key_at(j) == x;
                if j != i { assert(self.key_at(j) == x); } else { assert(self.key_at(i) == x); }
            }
            if x == k { assert(self.key_at(i) == x); }
        }
        assert forall|x: Seq<char>| #[trigger] self.view().dom().contains(x) implies self.view()[x] == m[x] by {
            let j = choose|j: int| 0 <= j < self.entries@.len() && #[trigger] self.key_at(j) == x;
            self.lemma_index(j);
            if j != i {
                assert(old_self.key_at(j) == x);
                old_self.lemma_index(j);
            }
        }
        assert(self.view() =~= m);
    }

    proof fn lemma_map_after_push(&self, old_self: Self)
        requires
            old_self.wf(),
            self.wf(),
            self.entries@.len() == old_self.entries@.len() + 1,
            forall|j: int| 0 <= j < old_self.entries@.len() ==> self.entries@[j] == old_self.entries@[j],
        ensures
            self.view() == old_self.view().insert(
                self.key_at(old_self.entries@.len() as int),
                self.entries@[old_self.entries@.len() as int].value,
            ),
    {
        let n = old_self.entries@.len() as int;
        let k = self.key_at(n);
        let m = old_self.view().insert(k, self.entries@[n].value);
        assert forall|x: Seq<char>| #[trigger] self.view().dom().contains(x) <==> m.dom().contains(x) by {
            if self.has_key(x) {
                let j = choose|j: int| 0 <= j < self.entries@.len() && #[trigger] self.key_at(j) == x;
                if j != n { assert(old_self.key_at(j) == x); }
            }
            if old_self.has_key(x) {
                let j = choose|j: int| 0 <= j < old_self.entries@.len() && #[trigger] old_self.key_at(j) == x;
                assert(self.key_at(j) == x);
            }
            if x == k { assert(self.key_at(n) == x); }
        }
        assert forall|x: Seq<char>| #[trigger] self.view().dom().contains(x) implies self.view()[x] == m[x] by {
            let j = choose|j: int| 0 <= j < self.entries@.len() && #[trigger] self.key_at(j) == x;
            self.lemma_index(j);
            if j != n {
                assert(old_self.key_at(j) == x);
                old_self.lemma_index(j);
            }
        }
        assert(self.view() =~= m);
    }
}

proof fn lemma_prefix_keys_len<T>(m: &StringMap<T>, n: int)
    requires
        m.wf(),
        0 <= n <= m.entries@.len(),
    ensures
        Set::new(|k: Seq<char>| exists|i: int| 0 <= i < n && #[trigger] m.key_at(i) == k).finite(),
        Set::new(|k: Seq<char>| exists|i: int| 0 <= i < n && #[trigger] m.key_at(i) == k).len() == n,
    decreases n,
{
    let s = Set::new(|k: Seq<char>| exists|i: int| 0 <= i < n && #[trigger] m.key_at(i) == k);
    if n == 0 {
        assert(s =~= Set::<Seq<char>>::empty());
    } else {
        lemma_prefix_keys_len(m, n - 1);
        let t = Set::new(|k: Seq<char>| exists|i: int| 0 <= i < n - 1 && #[trigger] m.key_at(i) == k);
        let k = m.key_at(n - 1);
        assert(s =~= t.insert(k)) by {
            assert forall|x: Seq<char>| s.contains(x) implies t.insert(k).contains(x) by {
                let i = choose|i: int| 0 <= i < n && #[trigger] m.key_at(i) == x;
                if i != n - 1 { assert(t.contains(x)); }
            }
            assert(s.contains(k)) by { assert(m.key_at(n - 1) == k); }
            assert forall|x: Seq<char>| t.contains(x) implies s.contains(x) by {
                let i = choose|i: int| 0 <= i < n - 1 && #[trigger] m.key_at(i) == x;
                assert(m.key_at(i) == x);
            }
        }
        assert(!t.contains(k)) by {
            if t.contains(k) {
                let i = choose|i: int| 0 <= i < n - 1 && #[trigger] m.key_at(i) == k;
                assert(m.key_at(i) == m.key_at(n - 1));
            }
        }
    }
}

/// What the map operations promise of each other, stated over the views that
/// `insert` and `remove` leave behind: a key reads back the value last set for
/// it, setting or removing one key leaves every other key as it was, and a
/// removed key is gone.
pub proof fn lemma_string_map_laws<T>(
    before: StringMap<T>,
    after_insert: StringMap<T>,
    after_remove: StringMap<T>,
    k: Seq<char>,
    other: Seq<char>,
    v: T,
)
    requires
        k != other,
        after_insert@ == before@.insert(k, v),
        after_remove@ == after_insert@.remove(k),
    ensures
        after_insert@.dom().contains(k) && after_insert@[k] == v,
        after_insert@.dom().contains(other) == before@.dom().contains(other),
        before@.dom().contains(other) ==> after_insert@[other] == before@[other],
        !after_remove@.dom().contains(k),
        after_remove@.dom().contains(other) == before@.dom().contains(other),
        before@.dom().contains(other) ==> after_remove@[other] == before@[other],
        after_remove@ == before@.remove(k),
{
    assert(after_remove@ =~= before@.remove(k));
}

/// The sender half of a call leg's channel and the codec it was opened with.
pub struct CodecSender<S> {
    pub codec: String,
    pub sender: S,
}

/// The channel of each call leg, by call leg id.
pub struct UuidChannels<S> {
    pub uuid_sender_map: StringMap<CodecSender<S>>,
}

impl<S> UuidChannels<S> {
    /// No call leg has a channel.
    pub fn new() -> (r: Self)
        ensures
            r.uuid_sender_map.view() == Map::<Seq<char>, CodecSender<S>>::empty(),
    {
        UuidChannels { uuid_sender_map: StringMap::new() }
    }

    /// Opens a channel for call leg `uuid` with the sender `make` gives, unless
    /// it has one already; says whether it opened one.
    pub fn open_channel<F: FnOnce() -> S>(&mut self, uuid: String, codec: String, make: F) -> (opened: bool)
        requires
            call_requires(make, ()),
        ensures
            opened == !old(self).uuid_sender_map@.dom().contains(uuid@),
            !opened ==> final(self).uuid_sender_map@ == old(self).uuid_sender_map@,
            opened ==> exists|s: S| call_ensures(make, (), s) && final(self).uuid_sender_map@
                == old(self).uuid_sender_map@.insert(uuid@, CodecSender { codec, sender: s }),
    {
        if self.uuid_sender_map.contains_key(uuid.as_str()) {
            false
        } else {
            let sender = make();
            self.uuid_sender_map.insert(uuid, CodecSender { codec, sender });
            true
        }
    }

    /// Hard stop: closes every call leg's channel and returns, for each, its
    /// sender together with the end-of-stream payload to send on it (for every
    /// subscriber of that call leg).
    pub fn stop_all(&mut self) -> (r: Vec<(S, AddressPayload)>)
        ensures
            final(self).uuid_sender_map.view() == Map::<Seq<char>, CodecSender<S>>::empty(),
            r@.len() == old(self).uuid_sender_map.view().len(),
            forall|i: int| 0 <= i < r@.len() ==> {
                let k = (#[trigger] r@[i]).1.payload.uuid@;
                &&& old(self).uuid_sender_map.view().dom().contains(k)
                &&& r@[i].0 == old(self).uuid_sender_map.view()[k].sender
                &&& r@[i].1.address@ == Seq::<char>::empty()
                &&& r@[i].1.payload@ == bare_request(k, AUDIO_END, Seq::empty())
            },
            forall|k: Seq<char>| old(self).uuid_sender_map.view().dom().contains(k)
                ==> exists|i: int| 0 <= i < r@.len() && (#[trigger] r@[i]).1.payload.uuid@ == k,
    {
        let mut drained = self.uuid_sender_map.drain();
        let ghost all = drained@;
        let n = drained.len();
        let mut out: Vec<(S, AddressPayload)> = Vec::new();
        while drained.len() > 0
            invariant
                n == all.len(),
                drained@ == all.subrange(0, n - out@.len()),
                out@.len() <= n,
                forall|i: int| 0 <= i < out@.len() ==> {
                    let e = all[n - 1 - i];
                    &&& (#[trigger] out@[i]).1.payload.uuid@ == e.key@
                    &&& out@[i].0 == e.value.sender
                    &&& out@[i].1.address@ == Seq::<char>::empty()
                    &&& out@[i].1.payload@ == bare_request(e.key@, AUDIO_END, Seq::empty())
                },
            decreases drained@.len(),
        {
            let e = drained.pop().unwrap();
            let p = AddressPayload::new_with_event_data(e.key, eval(&DialogRequestPayloadType::AudioEnd), String::new());
            out.push((e.value.sender, p));
            proof {
                assert(drained@ =~= all.subrange(0, n - out@.len()));
            }
        }
        proof {
            assert forall|k: Seq<char>| old(self).uuid_sender_map.view().dom().contains(k)
                implies exists|i: int| 0 <= i < out@.len() && (#[trigger] out@[i]).1.payload.uuid@ == k by {
                let j = choose|j: int| 0 <= j < all.len() && #[trigger] all[j].key@ == k;
                assert(out@[n - 1 - j].1.payload.uuid@ == k);
            }
        }
        out
    }
}

/// The gRPC client of each subscriber connection, by connection key.
pub struct AddressClients<C> {
    pub clients: StringMap<C>,
}

impl<C> AddressClients<C> {
    /// No connection has a client yet.
    pub fn new() -> (r: Self)
        ensures
            r.clients.view() == Map::<Seq<char>, C>::empty(),
    {
        AddressClients { clients: StringMap::new() }
    }
}

} // verus!
