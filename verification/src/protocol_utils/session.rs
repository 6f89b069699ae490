//! The state of a client session: identities, keys and the table of the
//! recipients' end-to-end public keys.

use vstd::prelude::*;

verus! {

/// Whether no user name occurs twice among `entries`.
pub open spec fn distinct_names<V>(entries: Seq<(String, V)>) -> bool {
    forall|i: int, j: int|
        0 <= i < entries.len() && 0 <= j < entries.len() && i != j ==> #[trigger] entries[i].0@
            != #[trigger] entries[j].0@
}

/// Whether `name` has an entry among `entries`.
pub open spec fn names_hold<V>(entries: Seq<(String, V)>, name: Seq<char>) -> bool {
    exists|i: int| 0 <= i < entries.len() && #[trigger] entries[i].0@ == name
}

/// The entries as a map from user names to keys.
pub open spec fn table_map<V: View>(entries: Seq<(String, V)>) -> Map<Seq<char>, V::V> {
    Map::new(
        |name: Seq<char>| names_hold(entries, name),
        |name: Seq<char>|
            entries[choose|i: int| 0 <= i < entries.len() && #[trigger] entries[i].0@ == name].1@,
    )
}

/// With distinct names, the map holds each entry's key under its name.
pub proof fn lemma_table_map_entry<V: View>(entries: Seq<(String, V)>, i: int)
    requires
        distinct_names(entries),
        0 <= i < entries.len(),
    ensures
        table_map(entries).contains_key(entries[i].0@),
        table_map(entries)[entries[i].0@] == entries[i].1@,
{
    let name = entries[i].0@;
    assert(names_hold(entries, name));
    let j = choose|j: int| 0 <= j < entries.len() && #[trigger] entries[j].0@ == name;
    if j != i {
        assert(entries[j].0@ != entries[i].0@);
    }
}

/// A table of values by name, in which no name occurs twice.
#[verifier::reject_recursive_types(V)]
pub struct NamedTable<V> {
    entries: Vec<(String, V)>,
}

/// The end-to-end encryption public keys of the recipients, by user name.
pub type E2eeKeyTable = NamedTable<[u8; 32]>;

impl<V> NamedTable<V> {
    /// No user name occurs twice.
    #[verifier::type_invariant]
    spec fn names_distinct(self) -> bool {
        distinct_names(self.entries@)
    }
}

impl<V: View> View for NamedTable<V> {
    type V = Map<Seq<char>, V::V>;

    closed spec fn view(&self) -> Map<Seq<char>, V::V> {
        table_map(self.entries@)
    }
}

impl<V: View> NamedTable<V> {
    /// An empty table.
    pub fn new() -> (t: Self)
        ensures
            t@ == Map::<Seq<char>, V::V>::empty(),
    {
        let t = NamedTable { entries: Vec::new() };
        assert(t@ =~= Map::<Seq<char>, V::V>::empty());
        t
    }

    /// The position of `name` among the entries, if it has one.
    fn find(&self, name: &str) -> (r: Option<usize>)
        ensures
            r is None <==> !self@.contains_key(name@),
            r matches Some(i) ==> i < self.entries@.len() && self.entries@[i as int].0@ == name@
                && self@[name@] == self.entries@[i as int].1@,
    {
        proof {
            use_type_invariant(self);
        }
        let target = String::from_str(name);
        let mut i: usize = 0;
        while i < self.entries.len()
            invariant
                i <= self.entries@.len(),
                target@ == name@,
                forall|k: int| 0 <= k < i ==> self.entries@[k].0@ != name@,
            decreases self.entries.len() - i,
        {
            if self.entries[i].0 == target {
                proof {
                    use_type_invariant(self);
                    lemma_table_map_entry(self.entries@, i as int);
                }
                return Some(i);
            }
            i = i + 1;
        }
        assert(!names_hold(self.entries@, name@));
        None
    }

    /// The value of `name`, if the table holds one.
    pub fn get(&self, name: &str) -> (r: Option<&V>)
        ensures
            r is None <==> !self@.contains_key(name@),
            r matches Some(k) ==> k@ == self@[name@],
    {
        match self.find(name) {
            Some(i) => Some(&self.entries[i].1),
            None => None,
        }
    }

    /// The names that the table holds, each once.
    pub fn names(&self) -> (r: Vec<String>)
        ensures
            forall|n: Seq<char>| self@.contains_key(n) <==> exists|i: int| 0 <= i < r@.len() && #[trigger] r@[i]@ == n,
    {
        let mut r: Vec<String> = Vec::new();
        let mut i: usize = 0;
        while i < self.entries.len()
            invariant
                i <= self.entries@.len(),
                r@.len() == i,
                forall|k: int| 0 <= k < i ==> #[trigger] r@[k]@ == self.entries@[k].0@,
            decreases self.entries.len() - i,
        {
            r.push(self.entries[i].0.clone());
            i = i + 1;
        }
        assert forall|n: Seq<char>| self@.contains_key(n) <==> exists|i: int| 0 <= i < r@.len() && #[trigger] r@[i]@ == n by {
            if self@.contains_key(n) {
                let k = choose|k: int| 0 <= k < self.entries@.len() && #[trigger] self.entries@[k].0@ == n;
                assert(r@[k]@ == n);
            }
            if exists|i: int| 0 <= i < r@.len() && #[trigger] r@[i]@ == n {
                let k = choose|i: int| 0 <= i < r@.len() && #[trigger] r@[i]@ == n;
                assert(self.entries@[k].0@ == n);
                assert(names_hold(self.entries@, n));
            }
        }
        r
    }

    /// Whether the table holds a key for `name`.
    pub fn contains(&self, name: &str) -> (b: bool)
        ensures
            b == self@.contains_key(name@),
    {
        self.find(name).is_some()
    }

    /// Records `key` for `name`, replacing the value it had.
    pub fn insert(&mut self, name: &str, key: V)
        ensures
            final(self)@ == old(self)@.insert(name@, key@),
    {
        proof {
            use_type_invariant(&*self);
        }
        let ghost old_entries = self.entries@;
        let owned = String::from_str(name);
        let found = self.find(name);
        let mut entries: Vec<(String, V)> = Vec::new();
        std::mem::swap(&mut entries, &mut self.entries);
        match found {
            Some(i) => {
                proof {
                    assert forall|a: int, b: int|
                        0 <= a < old_entries.len() && 0 <= b < old_entries.len() && a != b implies #[trigger] old_entries.update(i as int, (owned, key))[a].0@
                        != #[trigger] old_entries.update(i as int, (owned, key))[b].0@ by {
                        if a != i && b != i {
                            assert(old_entries[a].0@ != old_entries[b].0@);
                        } else if a == i {
                            assert(old_entries[i as int].0@ != old_entries[b].0@);
                        } else {
                            assert(old_entries[a].0@ != old_entries[i as int].0@);
                        }
                    }
                }
                entries.set(i, (owned, key));
                self.entries = entries;
                proof {
                    let e = self.entries@;
                    assert(e == old_entries.update(i as int, (owned, key)));
                    lemma_table_map_entry(e, i as int);
                    assert forall|n: Seq<char>| #[trigger] table_map(e).contains_key(n) == old(self)@.insert(name@, key@).contains_key(n) by {
                        if names_hold(old_entries, n) && n != name@ {
                            let k = choose|k: int| 0 <= k < old_entries.len() && #[trigger] old_entries[k].0@ == n;
                            assert(e[k].0@ == n);
                        }
                        if names_hold(e, n) && n != name@ {
                            let k = choose|k: int| 0 <= k < e.len() && #[trigger] e[k].0@ == n;
                            assert(old_entries[k].0@ == n);
                        }
                    }
                    assert forall|n: Seq<char>| #[trigger] table_map(e).contains_key(n) implies table_map(e)[n] == old(self)@.insert(name@, key@)[n] by {
                        if n != name@ {
                            let k = choose|k: int| 0 <= k < e.len() && #[trigger] e[k].0@ == n;
                            assert(k != i);
                            lemma_table_map_entry(e, k);
                            lemma_table_map_entry(old_entries, k);
                        }
                    }
                    assert(table_map(e) =~= old(self)@.insert(name@, key@));
                }
            },
            None => {
                proof {
                    let e = old_entries.push((owned, key));
                    assert forall|a: int, b: int|
                        0 <= a < e.len() && 0 <= b < e.len() && a != b implies #[trigger] e[a].0@
                        != #[trigger] e[b].0@ by {
                        if a < old_entries.len() && b < old_entries.len() {
                            assert(old_entries[a].0@ != old_entries[b].0@);
                        } else if a < old_entries.len() {
                            assert(!names_hold(old_entries, name@));
                            assert(old_entries[a].0@ != name@);
                        } else {
                            assert(!names_hold(old_entries, name@));
                            assert(old_entries[b].0@ != name@);
                        }
                    }
                }
                entries.push((owned, key));
                self.entries = entries;
                proof {
                    let e = self.entries@;
                    let last = (e.len() - 1) as int;
                    lemma_table_map_entry(e, last);
                    assert forall|n: Seq<char>| #[trigger] table_map(e).contains_key(n) == old(self)@.insert(name@, key@).contains_key(n) by {
                        if names_hold(old_entries, n) {
                            let k = choose|k: int| 0 <= k < old_entries.len() && #[trigger] old_entries[k].0@ == n;
                            assert(e[k].0@ == n);
                        }
                        if names_hold(e, n) && n != name@ {
                            let k = choose|k: int| 0 <= k < e.len() && #[trigger] e[k].0@ == n;
                            assert(k != last);
                            assert(old_entries[k].0@ == n);
                        }
                    }
                    assert forall|n: Seq<char>| #[trigger] table_map(e).contains_key(n) implies table_map(e)[n] == old(self)@.insert(name@, key@)[n] by {
                        if n != name@ {
                            let k = choose|k: int| 0 <= k < e.len() && #[trigger] e[k].0@ == n;
                            assert(k != last);
                            lemma_table_map_entry(e, k);
                            lemma_table_map_entry(old_entries, k);
                        }
                    }
                    assert(table_map(e) =~= old(self)@.insert(name@, key@));
                }
            },
        }
    }

    /// Removes the key of `name`; tells whether there was one.
    pub fn remove(&mut self, name: &str) -> (removed: bool)
        ensures
            removed == old(self)@.contains_key(name@),
            final(self)@ == old(self)@.remove(name@),
    {
        proof {
            use_type_invariant(&*self);
        }
        let ghost old_entries = self.entries@;
        match self.find(name) {
            None => {
                assert(old(self)@.remove(name@) =~= old(self)@);
                false
            },
            Some(i) => {
                let mut entries: Vec<(String, V)> = Vec::new();
                std::mem::swap(&mut entries, &mut self.entries);
                let _ = entries.remove(i);
                let ghost e = entries@;
                proof {
                    assert(e =~= old_entries.remove(i as int));
                    assert forall|a: int, b: int|
                        0 <= a < e.len() && 0 <= b < e.len() && a != b implies #[trigger] e[a].0@
                        != #[trigger] e[b].0@ by {
                        let a0 = if a < i { a } else { a + 1 };
                        let b0 = if b < i { b } else { b + 1 };
                        assert(e[a] == old_entries[a0]);
                        assert(e[b] == old_entries[b0]);
                        assert(old_entries[a0].0@ != old_entries[b0].0@);
                    }
                }
                self.entries = entries;
                proof {
                    let target = old(self)@.remove(name@);
                    assert forall|n: Seq<char>| #[trigger] table_map(e).contains_key(n) == target.contains_key(n) by {
                        if names_hold(e, n) {
                            let k = choose|k: int| 0 <= k < e.len() && #[trigger] e[k].0@ == n;
                            let k0 = if k < i { k } else { k + 1 };
                            assert(e[k] == old_entries[k0]);
                            assert(old_entries[k0].0@ == n);
                            assert(k0 != i);
                            assert(old_entries[k0].0@ != old_entries[i as int].0@);
                        }
                        if names_hold(old_entries, n) && n != name@ {
                            let k0 = choose|k: int| 0 <= k < old_entries.len() && #[trigger] old_entries[k].0@ == n;
                            assert(k0 != i);
                            let k = if k0 < i { k0 } else { k0 - 1 };
                            assert(e[k] == old_entries[k0]);
                        }
                    }
                    assert forall|n: Seq<char>| #[trigger] table_map(e).contains_key(n) implies table_map(e)[n] == target[n] by {
                        let k = choose|k: int| 0 <= k < e.len() && #[trigger] e[k].0@ == n;
                        let k0 = if k < i { k } else { k + 1 };
                        assert(e[k] == old_entries[k0]);
                        lemma_table_map_entry(e, k);
                        lemma_table_map_entry(old_entries, k0);
                    }
                    assert(table_map(e) =~= target);
                }
                true
            },
        }
    }

    /// Removes every entry.
    pub fn clear(&mut self)
        ensures
            final(self)@ == Map::<Seq<char>, V::V>::empty(),
    {
        self.entries = Vec::new();
        assert(table_map(self.entries@) =~= Map::<Seq<char>, V::V>::empty());
    }
}

impl NamedTable<[u8; 32]> {
    /// Removes the key of `name` when it equals `key`; tells whether it did.
    pub fn remove_if_matches(&mut self, name: &str, key: [u8; 32]) -> (removed: bool)
        ensures
            removed == (old(self)@.contains_key(name@) && old(self)@[name@] == key@),
            final(self)@ == if removed {
                old(self)@.remove(name@)
            } else {
                old(self)@
            },
    {
        match self.get(name) {
            Some(existing) => {
                if keys_equal(existing, &key) {
                    self.remove(name);
                    true
                } else {
                    false
                }
            },
            None => false,
        }
    }
}

/// Whether two 32-byte keys are equal.
pub fn keys_equal(a: &[u8; 32], b: &[u8; 32]) -> (r: bool)
    ensures
        r == (a@ == b@),
{
    let mut i: usize = 0;
    while i < 32
        invariant
            i <= 32,
            a@.len() == 32,
            b@.len() == 32,
            forall|k: int| 0 <= k < i ==> a@[k] == b@[k],
        decreases 32 - i,
    {
        if a[i] != b[i] {
            return false;
        }
        i = i + 1;
    }
    assert(a@ =~= b@);
    true
}

/// Whether `key` is the all-zero key, which stands for "no key set".
pub fn is_zero_key(key: &[u8; 32]) -> (r: bool)
    ensures
        r == (key@ == zero_key()),
{
    let mut i: usize = 0;
    while i < 32
        invariant
            i <= 32,
            key@.len() == 32,
            forall|k: int| 0 <= k < i ==> key@[k] == 0,
        decreases 32 - i,
    {
        if key[i] != 0 {
            assert(key@[i as int] != zero_key()[i as int]);
            return false;
        }
        i = i + 1;
    }
    assert(key@ =~= zero_key());
    true
}

/// The all-zero key: the value of a key that has not been set.
pub open spec fn zero_key() -> Seq<u8> {
    Seq::new(32, |i: int| 0u8)
}

/// What a client session holds, as values.
pub struct ClientView {
    pub id: Seq<char>,
    pub server_id: Seq<char>,
    pub current_recipient: Seq<char>,
    pub exchange_pub: Seq<u8>,
    pub exchange_sec: Seq<u8>,
    pub session_key: Seq<u8>,
    pub e2ee_pub: Seq<u8>,
    pub e2ee_sec: Seq<u8>,
    pub key_table: Map<Seq<char>, Seq<u8>>,
    pub last_ack: bool,
    pub request_error: bool,
}

/// The state of a client session: the client's and the server's identifiers, the
/// selected recipient, the key-exchange and end-to-end key pairs, the session key,
/// the recipients' public keys, and the acknowledgement flags.
pub struct ClientState {
    pub id: String,
    pub server_id: String,
    pub current_recipient: String,
    pub exchange_pub: [u8; 32],
    pub exchange_sec: [u8; 32],
    pub session_key: [u8; 32],
    pub e2ee_pub: [u8; 32],
    pub e2ee_sec: [u8; 32],
    pub key_table: E2eeKeyTable,
    pub last_ack: bool,
    pub request_error: bool,
}

impl View for ClientState {
    type V = ClientView;

    open spec fn view(&self) -> ClientView {
        ClientView {
            id: self.id@,
            server_id: self.server_id@,
            current_recipient: self.current_recipient@,
            exchange_pub: self.exchange_pub@,
            exchange_sec: self.exchange_sec@,
            session_key: self.session_key@,
            e2ee_pub: self.e2ee_pub@,
            e2ee_sec: self.e2ee_sec@,
            key_table: self.key_table@,
            last_ack: self.last_ack,
            request_error: self.request_error,
        }
    }
}

impl ClientState {
    /// A session before any connection: empty identifiers, all-zero keys, no
    /// recipients' keys, flags down.
    pub fn new() -> (s: Self)
        ensures
            s@ == (ClientView {
                id: Seq::empty(),
                server_id: Seq::empty(),
                current_recipient: Seq::empty(),
                exchange_pub: zero_key(),
                exchange_sec: zero_key(),
                session_key: zero_key(),
                e2ee_pub: zero_key(),
                e2ee_sec: zero_key(),
                key_table: Map::empty(),
                last_ack: false,
                request_error: false,
            }),
    {
        let s = ClientState {
            id: String::new(),
            server_id: String::new(),
            current_recipient: String::new(),
            exchange_pub: [0u8; 32],
            exchange_sec: [0u8; 32],
            session_key: [0u8; 32],
            e2ee_pub: [0u8; 32],
            e2ee_sec: [0u8; 32],
            key_table: E2eeKeyTable::new(),
            last_ack: false,
            request_error: false,
        };
        assert(s.exchange_pub@ =~= zero_key());
        assert(s.exchange_sec@ =~= zero_key());
        assert(s.session_key@ =~= zero_key());
        assert(s.e2ee_pub@ =~= zero_key());
        assert(s.e2ee_sec@ =~= zero_key());
        s
    }
}

} // verus!
