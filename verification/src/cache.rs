//! The registry: every tracked tunnel, each under its own key.

use vstd::prelude::*;
use vstd::string::*;
use crate::connection::{Connection, ConnectionView};
use crate::error::{CacheError, CacheErrorView};

verus! {

/// The views of a sequence of tunnels, one for one.
pub open spec fn views(s: Seq<Connection>) -> Seq<ConnectionView> {
    Seq::new(s.len(), |i: int| s[i]@)
}

/// No two tunnels of the sequence have the same key.
pub open spec fn distinct_keys(s: Seq<ConnectionView>) -> bool {
    forall|i: int, j: int| 0 <= i < j < s.len() ==> (#[trigger] s[i]).key() != (#[trigger] s[j]).key()
}

/// `i` is the first place in the sequence of a tunnel with this key.
pub open spec fn first_key_at(s: Seq<ConnectionView>, key: Seq<char>, i: int) -> bool {
    &&& 0 <= i < s.len()
    &&& s[i].key() == key
    &&& forall|j: int| 0 <= j < i ==> (#[trigger] s[j]).key() != key
}

/// Some tunnel of the sequence has this key.
pub open spec fn has_key(s: Seq<ConnectionView>, key: Seq<char>) -> bool {
    exists|i: int| 0 <= i < s.len() && (#[trigger] s[i]).key() == key
}

/// The first place of a tunnel with this key, where there is one.
pub open spec fn position(s: Seq<ConnectionView>, key: Seq<char>) -> int {
    choose|i: int| first_key_at(s, key, i)
}

/// The keys of the tunnels, in their order.
pub open spec fn keys_of(s: Seq<ConnectionView>) -> Seq<Seq<char>> {
    Seq::new(s.len(), |i: int| s[i].key())
}

/// The registry read as a mapping from key to tunnel.
pub open spec fn as_map(s: Seq<ConnectionView>) -> Map<Seq<char>, ConnectionView> {
    Map::new(|key: Seq<char>| has_key(s, key), |key: Seq<char>| s[position(s, key)])
}

/// A key has at most one first place.
pub proof fn lemma_first_key_unique(s: Seq<ConnectionView>, key: Seq<char>, i: int, j: int)
    requires
        first_key_at(s, key, i),
        first_key_at(s, key, j),
    ensures
        i == j,
{
    if i < j {
        assert(s[i].key() != key);
    } else if j < i {
        assert(s[j].key() != key);
    }
}

/// Where a key first stands at `i`, it is present and `i` is its position.
pub proof fn lemma_position(s: Seq<ConnectionView>, key: Seq<char>, i: int)
    requires
        first_key_at(s, key, i),
    ensures
        has_key(s, key),
        position(s, key) == i,
{
    assert(s[i].key() == key);
    lemma_first_key_unique(s, key, i, position(s, key));
}

/// A key that stands anywhere in the sequence is present.
pub proof fn lemma_has_key(s: Seq<ConnectionView>, key: Seq<char>, i: int)
    requires
        0 <= i < s.len(),
        s[i].key() == key,
    ensures
        has_key(s, key),
        first_key_at(s, key, position(s, key)),
        position(s, key) <= i,
        distinct_keys(s) ==> position(s, key) == i,
    decreases i,
{
    if exists|j: int| 0 <= j < i && s[j].key() == key {
        let j = choose|j: int| 0 <= j < i && s[j].key() == key;
        lemma_has_key(s, key, j);
        if distinct_keys(s) {
            assert(s[j].key() != s[i].key());
        }
    } else {
        assert(first_key_at(s, key, i));
        lemma_first_key_unique(s, key, i, position(s, key));
    }
}

/// The position of a key that is present is the first place where a
/// tunnel has it.
pub proof fn lemma_has_key_iff(s: Seq<ConnectionView>, key: Seq<char>)
    ensures
        has_key(s, key) <==> exists|i: int| first_key_at(s, key, i),
        has_key(s, key) ==> first_key_at(s, key, position(s, key)),
{
    if has_key(s, key) {
        let i = choose|i: int| 0 <= i < s.len() && (#[trigger] s[i]).key() == key;
        lemma_has_key(s, key, i);
        assert(first_key_at(s, key, position(s, key)));
    }
    if exists|i: int| first_key_at(s, key, i) {
        let i = choose|i: int| first_key_at(s, key, i);
        assert(s[i].key() == key);
    }
}

/// Read as a mapping, a registry does not depend on the order of its
/// tunnels: two registries that hold the same tunnels are the same mapping.
pub proof fn lemma_map_ignores_order(a: Seq<ConnectionView>, b: Seq<ConnectionView>)
    requires
        distinct_keys(a),
        distinct_keys(b),
        forall|c: ConnectionView| a.contains(c) <==> b.contains(c),
    ensures
        as_map(a) == as_map(b),
{
    assert forall|key: Seq<char>| has_key(a, key) implies has_key(b, key) && b[position(b, key)]
        == a[position(a, key)] by {
        lemma_same_tunnel_under_key(a, b, key);
    }
    assert forall|key: Seq<char>| has_key(b, key) implies has_key(a, key) by {
        lemma_same_tunnel_under_key(b, a, key);
    }
    assert(as_map(a) =~= as_map(b));
}

/// A key of one registry stands for the same tunnel in every registry that
/// holds the tunnels of the first.
pub proof fn lemma_same_tunnel_under_key(
    a: Seq<ConnectionView>,
    b: Seq<ConnectionView>,
    key: Seq<char>,
)
    requires
        distinct_keys(b),
        forall|c: ConnectionView| a.contains(c) ==> b.contains(c),
        has_key(a, key),
    ensures
        has_key(b, key),
        b[position(b, key)] == a[position(a, key)],
{
    lemma_has_key_iff(a, key);
    let c = a[position(a, key)];
    assert(a.contains(c));
    assert(b.contains(c));
    let j = choose|j: int| 0 <= j < b.len() && b[j] == c;
    lemma_has_key(b, key, j);
}

/// Taking a tunnel out and putting it at the end changes the order of a
/// registry and nothing else.
pub proof fn lemma_move_to_end_keeps_map(s: Seq<ConnectionView>, i: int)
    requires
        distinct_keys(s),
        0 <= i < s.len(),
    ensures
        distinct_keys(s.remove(i).push(s[i])),
        as_map(s.remove(i).push(s[i])) == as_map(s),
{
    let r = s.remove(i).push(s[i]);
    lemma_remove_keeps_distinct(s, i);
    lemma_push_keeps_distinct(s.remove(i), s[i]);
    assert forall|c: ConnectionView| s.contains(c) <==> r.contains(c) by {
        if s.contains(c) {
            let j = choose|j: int| 0 <= j < s.len() && s[j] == c;
            let j0 = if j < i { j } else if j == i { r.len() - 1 } else { j - 1 };
            assert(r[j0] == c);
        }
        if r.contains(c) {
            let j = choose|j: int| 0 <= j < r.len() && r[j] == c;
            let j0 = if j == r.len() - 1 { i } else if j < i { j } else { j + 1 };
            assert(s[j0] == c);
        }
    }
    lemma_map_ignores_order(r, s);
}

/// Taking a tunnel out keeps the keys distinct, and its key is gone.
pub proof fn lemma_remove_keeps_distinct(s: Seq<ConnectionView>, i: int)
    requires
        distinct_keys(s),
        0 <= i < s.len(),
    ensures
        distinct_keys(s.remove(i)),
        !has_key(s.remove(i), s[i].key()),
        forall|key: Seq<char>| key != s[i].key() ==> (has_key(s.remove(i), key) <==> has_key(s, key)),
{
    let r = s.remove(i);
    assert forall|a: int, b: int| 0 <= a < b < r.len() implies (#[trigger] r[a]).key() != (
    #[trigger] r[b]).key() by {
        let a0 = if a < i { a } else { a + 1 };
        let b0 = if b < i { b } else { b + 1 };
        assert(r[a] == s[a0]);
        assert(r[b] == s[b0]);
    }
    lemma_has_key_iff(r, s[i].key());
    if has_key(r, s[i].key()) {
        let a = choose|a: int| 0 <= a < r.len() && (#[trigger] r[a]).key() == s[i].key();
        let a0 = if a < i { a } else { a + 1 };
        assert(r[a] == s[a0]);
        if a0 < i {
            assert(s[a0].key() != s[i].key());
        } else {
            assert(s[i].key() != s[a0].key());
        }
    }
    assert forall|key: Seq<char>| key != s[i].key() implies (has_key(r, key) <==> has_key(s, key)) by {
        lemma_has_key_iff(r, key);
        lemma_has_key_iff(s, key);
        if has_key(r, key) {
            let a = choose|a: int| 0 <= a < r.len() && (#[trigger] r[a]).key() == key;
            let a0 = if a < i { a } else { a + 1 };
            assert(r[a] == s[a0]);
            lemma_has_key(s, key, a0);
        }
        if has_key(s, key) {
            let a0 = choose|a0: int| 0 <= a0 < s.len() && (#[trigger] s[a0]).key() == key;
            let a = if a0 < i { a0 } else { a0 - 1 };
            assert(r[a] == s[a0]);
            lemma_has_key(r, key, a);
        }
    }
}

/// Adding a tunnel whose key is new keeps the keys distinct.
pub proof fn lemma_push_keeps_distinct(s: Seq<ConnectionView>, c: ConnectionView)
    requires
        distinct_keys(s),
        !has_key(s, c.key()),
    ensures
        distinct_keys(s.push(c)),
        has_key(s.push(c), c.key()),
        position(s.push(c), c.key()) == s.len(),
{
    let p = s.push(c);
    lemma_has_key_iff(s, c.key());
    assert forall|a: int, b: int| 0 <= a < b < p.len() implies (#[trigger] p[a]).key() != (
    #[trigger] p[b]).key() by {
        assert(p[a] == s[a]);
        if b < s.len() {
            assert(p[b] == s[b]);
        }
    }
    assert(p[s.len() as int] == c);
    lemma_has_key(p, c.key(), s.len() as int);
}

/// Changing only the tracked process of a tunnel changes no key.
pub proof fn lemma_close_keeps_keys(s: Seq<ConnectionView>, i: int)
    requires
        0 <= i < s.len(),
    ensures
        keys_of(s.update(i, s[i].closed())) == keys_of(s),
        distinct_keys(s) ==> distinct_keys(s.update(i, s[i].closed())),
        forall|key: Seq<char>| has_key(s.update(i, s[i].closed()), key) <==> has_key(s, key),
{
    let u = s.update(i, s[i].closed());
    assert(keys_of(u) =~= keys_of(s));
    assert forall|a: int| 0 <= a < s.len() implies (#[trigger] u[a]).key() == s[a].key() by {}
    assert forall|key: Seq<char>| has_key(u, key) <==> has_key(s, key) by {
        lemma_has_key_iff(u, key);
        lemma_has_key_iff(s, key);
        if has_key(u, key) {
            let a = choose|a: int| 0 <= a < u.len() && (#[trigger] u[a]).key() == key;
            assert(s[a].key() == key);
        }
        if has_key(s, key) {
            let a = choose|a: int| 0 <= a < s.len() && (#[trigger] s[a]).key() == key;
            assert(u[a].key() == key);
        }
    }
}

/// The tunnels that are tracked, each found under its own key.
#[derive(Debug)]
pub struct ConnectionCache {
    connections: Vec<Connection>,
}

impl View for ConnectionCache {
    type V = Seq<ConnectionView>;

    closed spec fn view(&self) -> Seq<ConnectionView> {
        views(self.connections@)
    }
}

impl ConnectionCache {
    #[verifier::type_invariant]
    closed spec fn keys_are_distinct(self) -> bool {
        distinct_keys(views(self.connections@))
    }

    /// A registry without tunnels.
    pub fn new() -> (cache: ConnectionCache)
        ensures
            cache@ == Seq::<ConnectionView>::empty(),
    {
        let cache = ConnectionCache { connections: Vec::new() };
        assert(cache@ =~= Seq::<ConnectionView>::empty());
        cache
    }

    /// The number of tunnels. No two of them share a key.
    pub fn len(&self) -> (n: usize)
        ensures
            n == self@.len(),
            distinct_keys(self@),
    {
        proof {
            use_type_invariant(self);
        }
        self.connections.len()
    }

    pub fn is_empty(&self) -> (empty: bool)
        ensures
            empty == (self@.len() == 0),
    {
        self.connections.len() == 0
    }

    /// The place of the tunnel with this key.
    pub fn find(&self, key: &str) -> (place: Option<usize>)
        ensures
            place.is_some() == has_key(self@, key@),
            place matches Some(i) ==> i == position(self@, key@) && i < self@.len()
                && self@[i as int].key() == key@,
            distinct_keys(self@),
    {
        proof {
            use_type_invariant(self);
        }
        let wanted = key.to_string();
        let mut i: usize = 0;
        while i < self.connections.len()
            invariant
                i <= self.connections.len(),
                wanted@ == key@,
                distinct_keys(self@),
                forall|j: int| 0 <= j < i ==> (#[trigger] self@[j]).key() != key@,
            decreases self.connections.len() - i,
        {
            assert(self@[i as int] == self.connections@[i as int]@);
            if self.connections[i].key() == wanted {
                proof {
                    lemma_position(self@, key@, i as int);
                }
                return Some(i);
            }
            i += 1;
        }
        proof {
            lemma_has_key_iff(self@, key@);
        }
        None
    }

    /// Whether a tunnel with this key is registered.
    pub fn contains_key(&self, key: &str) -> (present: bool)
        ensures
            present == has_key(self@, key@),
    {
        self.find(key).is_some()
    }

    /// The tunnel registered under this key.
    pub fn get(&self, key: &str) -> (found: Option<&Connection>)
        ensures
            found.is_some() == has_key(self@, key@),
            found matches Some(c) ==> c@ == self@[position(self@, key@)],
    {
        match self.find(key) {
            Some(i) => {
                assert(self@[i as int] == self.connections@[i as int]@);
                Some(&self.connections[i])
            },
            None => None,
        }
    }

    /// The keys of all tunnels, in the order of the registry.
    pub fn keys(&self) -> (keys: Vec<String>)
        ensures
            key_views(keys@) == keys_of(self@),
    {
        let mut keys: Vec<String> = Vec::new();
        let mut i: usize = 0;
        while i < self.connections.len()
            invariant
                i <= self.connections.len(),
                keys@.len() == i,
                forall|j: int| 0 <= j < i ==> (#[trigger] keys@[j])@ == self@[j].key(),
            decreases self.connections.len() - i,
        {
            assert(self@[i as int] == self.connections@[i as int]@);
            keys.push(self.connections[i].key());
            i += 1;
        }
        assert(key_views(keys@) =~= keys_of(self@));
        keys
    }

    /// Takes the tunnel with this key out of the registry and hands it over.
    /// Where there is none, the registry stays as it is.
    pub fn remove_connection(&mut self, key: &str) -> (removed: Result<Connection, CacheError>)
        ensures
            distinct_keys(final(self)@),
            has_key(old(self)@, key@) ==> removed is Ok && removed->Ok_0@ == old(self)@[position(
                old(self)@,
                key@,
            )] && final(self)@ == old(self)@.remove(position(old(self)@, key@)) && !has_key(
                final(self)@,
                key@,
            ),
            !has_key(old(self)@, key@) ==> removed is Err && removed->Err_0@
                == CacheErrorView::KeyNotFound(key@) && final(self)@ == old(self)@,
    {
        match self.find(key) {
            Some(i) => Ok(self.take(i)),
            None => Err(CacheError::KeyNotFound(key.to_string())),
        }
    }

    /// Takes the tunnel at place `i` out of the registry.
    pub(crate) fn take(&mut self, i: usize) -> (removed: Connection)
        requires
            i < old(self)@.len(),
        ensures
            removed@ == old(self)@[i as int],
            final(self)@ == old(self)@.remove(i as int),
            distinct_keys(final(self)@),
            !has_key(final(self)@, removed@.key()),
    {
        proof {
            use_type_invariant(&*self);
            lemma_remove_keeps_distinct(self@, i as int);
        }
        let mut connections = self.lift();
        let removed = connections.remove(i);
        assert(views(connections@) =~= views(old(self).connections@).remove(i as int));
        self.put_back(connections);
        removed
    }

    /// Registers a tunnel under its key, unless that key is taken.
    pub fn insert(&mut self, connection: Connection) -> (done: Result<(), CacheError>)
        ensures
            distinct_keys(final(self)@),
            !has_key(old(self)@, connection@.key()) ==> done is Ok && final(self)@ == old(
                self,
            )@.push(connection@),
            has_key(old(self)@, connection@.key()) ==> done is Err && done->Err_0@
                == CacheErrorView::DuplicateKey(connection@.key()) && final(self)@ == old(self)@,
    {
        proof {
            use_type_invariant(&*self);
        }
        let key = connection.key();
        if self.contains_key(key.as_str()) {
            return Err(CacheError::DuplicateKey(key));
        }
        proof {
            lemma_push_keeps_distinct(self@, connection@);
        }
        let mut connections = self.lift();
        connections.push(connection);
        assert(views(connections@) =~= views(old(self).connections@).push(connection@));
        self.put_back(connections);
        Ok(())
    }

    /// Ends the tracking of the process of the tunnel at place `i`, and
    /// names the process to signal, as [`Connection::kill_connection`] does.
    pub(crate) fn kill_at(&mut self, i: usize, alive: bool) -> (signal: Option<u32>)
        requires
            i < old(self)@.len(),
        ensures
            final(self)@ == old(self)@.update(i as int, old(self)@[i as int].closed()),
            signal == old(self)@[i as int].live_pid(alive),
            distinct_keys(final(self)@),
    {
        proof {
            use_type_invariant(&*self);
            lemma_close_keeps_keys(self@, i as int);
        }
        let mut connections = self.lift();
        assert(old(self)@[i as int] == connections@[i as int]@);
        let signal = connections[i].kill_connection(alive);
        assert(views(connections@) =~= old(self)@.update(i as int, old(self)@[i as int].closed()));
        self.put_back(connections);
        signal
    }

    /// Recalls that no two tunnels of a registry share a key. Does nothing
    /// when run.
    pub(crate) fn recall_distinct(&self)
        ensures
            distinct_keys(self@),
    {
        proof {
            use_type_invariant(self);
        }
    }

    /// A copy of the tunnel at place `i`.
    pub(crate) fn copy_at(&self, i: usize) -> (copy: Connection)
        requires
            i < self@.len(),
        ensures
            copy@ == self@[i as int],
    {
        assert(self@[i as int] == self.connections@[i as int]@);
        self.connections[i].duplicate()
    }

    /// Takes the tunnels out of the registry, to change them.
    fn lift(&mut self) -> (connections: Vec<Connection>)
        ensures
            connections == old(self).connections,
            final(self).connections@.len() == 0,
    {
        let mut connections: Vec<Connection> = Vec::new();
        assert(distinct_keys(views(connections@)));
        core::mem::swap(&mut self.connections, &mut connections);
        connections
    }

    /// Puts tunnels with distinct keys into the registry.
    fn put_back(&mut self, connections: Vec<Connection>)
        requires
            distinct_keys(views(connections@)),
        ensures
            final(self).connections == connections,
    {
        let mut connections = connections;
        core::mem::swap(&mut self.connections, &mut connections);
    }
}

/// The views of a sequence of keys, one for one.
pub open spec fn key_views(s: Seq<String>) -> Seq<Seq<char>> {
    Seq::new(s.len(), |i: int| s[i]@)
}

} // verus!
