//! A map from strings.

use vstd::prelude::*;

use crate::text::str_eq;

verus! {

/// A map whose keys are strings. It holds each key once and keeps the order in
/// which the keys came.
#[derive(Debug)]
pub struct StrMap<V> {
    entries: Vec<(String, V)>,
}

/// No key occurs twice.
spec fn distinct<V>(e: Seq<(String, V)>) -> bool {
    forall|i: int, j: int| 0 <= i < j < e.len() ==> (#[trigger] e[i]).0@ != (#[trigger] e[j]).0@
}

/// Where the key stands.
spec fn at_key<V>(e: Seq<(String, V)>, k: Seq<char>, i: int) -> bool {
    0 <= i < e.len() && e[i].0@ == k
}

/// The map that distinct entries make.
spec fn to_map<V>(e: Seq<(String, V)>) -> Map<Seq<char>, V> {
    Map::new(
        |k: Seq<char>| exists|i: int| at_key(e, k, i),
        |k: Seq<char>| e[choose|i: int| at_key(e, k, i)].1,
    )
}

impl<V> View for StrMap<V> {
    type V = Map<Seq<char>, V>;

    closed spec fn view(&self) -> Map<Seq<char>, V> {
        to_map(self.entries@)
    }
}

proof fn lemma_at<V>(e: Seq<(String, V)>, i: int)
    requires
        distinct(e),
        0 <= i < e.len(),
    ensures
        to_map(e).dom().contains(e[i].0@),
        to_map(e)[e[i].0@] == e[i].1,
{
    let k = e[i].0@;
    assert(at_key(e, k, i));
    let j = choose|j: int| at_key(e, k, j);
    assert(at_key(e, k, j));
    assert(i == j);
}

proof fn lemma_push<V>(e: Seq<(String, V)>, key: String, value: V)
    requires
        distinct(e),
        forall|i: int| 0 <= i < e.len() ==> e[i].0@ != key@,
    ensures
        distinct(e.push((key, value))),
        to_map(e.push((key, value))) == to_map(e).insert(key@, value),
{
    let f = e.push((key, value));
    assert forall|k: Seq<char>| to_map(f).dom().contains(k) <==> to_map(e).insert(
        key@,
        value,
    ).dom().contains(k) by {
        if to_map(e).dom().contains(k) {
            let i = choose|i: int| at_key(e, k, i);
            assert(at_key(f, k, i));
        }
        if k == key@ {
            assert(at_key(f, k, e.len() as int));
        }
        if to_map(f).dom().contains(k) && k != key@ {
            let i = choose|i: int| at_key(f, k, i);
            assert(at_key(e, k, i));
        }
    }
    assert forall|k: Seq<char>| to_map(f).dom().contains(k) implies to_map(f)[k] == to_map(e).insert(
        key@,
        value,
    )[k] by {
        let i = choose|i: int| at_key(f, k, i);
        assert(at_key(f, k, i));
        lemma_at(f, i);
        if k != key@ {
            lemma_at(e, i);
        }
    }
    assert(to_map(f) =~= to_map(e).insert(key@, value));
}

proof fn lemma_update<V>(e: Seq<(String, V)>, at: int, key: String, value: V)
    requires
        distinct(e),
        0 <= at < e.len(),
        e[at].0@ == key@,
    ensures
        distinct(e.update(at, (key, value))),
        to_map(e.update(at, (key, value))) == to_map(e).insert(key@, value),
{
    let f = e.update(at, (key, value));
    assert forall|k: Seq<char>| to_map(f).dom().contains(k) <==> to_map(e).insert(
        key@,
        value,
    ).dom().contains(k) by {
        if to_map(e).dom().contains(k) {
            let i = choose|i: int| at_key(e, k, i);
            assert(at_key(f, k, i));
        }
        if k == key@ {
            assert(at_key(f, k, at));
        }
        if to_map(f).dom().contains(k) && k != key@ {
            let i = choose|i: int| at_key(f, k, i);
            assert(at_key(e, k, i));
        }
    }
    assert forall|k: Seq<char>| to_map(f).dom().contains(k) implies to_map(f)[k] == to_map(e).insert(
        key@,
        value,
    )[k] by {
        let i = choose|i: int| at_key(f, k, i);
        assert(at_key(f, k, i));
        lemma_at(f, i);
        if k != key@ {
            lemma_at(e, i);
        }
    }
    assert(to_map(f) =~= to_map(e).insert(key@, value));
}

proof fn lemma_remove<V>(e: Seq<(String, V)>, at: int)
    requires
        distinct(e),
        0 <= at < e.len(),
    ensures
        distinct(e.remove(at)),
        to_map(e.remove(at)) == to_map(e).remove(e[at].0@),
{
    let f = e.remove(at);
    let gone = e[at].0@;
    assert forall|i: int, j: int| 0 <= i < j < f.len() implies (#[trigger] f[i]).0@ != (
    #[trigger] f[j]).0@ by {
        let a = if i < at {
            i
        } else {
            i + 1
        };
        let b = if j < at {
            j
        } else {
            j + 1
        };
        assert(f[i] == e[a]);
        assert(f[j] == e[b]);
    }
    assert forall|k: Seq<char>| to_map(f).dom().contains(k) <==> to_map(e).remove(
        gone,
    ).dom().contains(k) by {
        if to_map(e).dom().contains(k) && k != gone {
            let i = choose|i: int| at_key(e, k, i);
            assert(at_key(e, k, i));
            if i < at {
                assert(at_key(f, k, i));
            } else {
                assert(f[i - 1] == e[i]);
                assert(at_key(f, k, i - 1));
            }
        }
        if to_map(f).dom().contains(k) {
            let i = choose|i: int| at_key(f, k, i);
            assert(at_key(f, k, i));
            let a = if i < at {
                i
            } else {
                i + 1
            };
            assert(f[i] == e[a]);
            assert(at_key(e, k, a));
        }
    }
    assert forall|k: Seq<char>| to_map(f).dom().contains(k) implies to_map(f)[k] == to_map(e).remove(
        gone,
    )[k] by {
        let i = choose|i: int| at_key(f, k, i);
        assert(at_key(f, k, i));
        let a = if i < at {
            i
        } else {
            i + 1
        };
        assert(f[i] == e[a]);
        lemma_at(f, i);
        lemma_at(e, a);
    }
    assert(to_map(f) =~= to_map(e).remove(gone));
}

proof fn lemma_len<V>(e: Seq<(String, V)>)
    requires
        distinct(e),
    ensures
        to_map(e).dom().finite(),
        to_map(e).dom().len() == e.len(),
    decreases e.len(),
{
    if e.len() == 0 {
        assert(to_map(e).dom() =~= Set::<Seq<char>>::empty());
    } else {
        let last = e.len() - 1;
        assert(e.remove(last) =~= e.drop_last());
        lemma_remove(e, last);
        lemma_len(e.drop_last());
        lemma_at(e, last);
        assert(to_map(e).dom() =~= to_map(e.drop_last()).dom().insert(e[last].0@));
    }
}

impl<V> StrMap<V> {
    #[verifier::type_invariant]
    spec fn inv(self) -> bool {
        distinct(self.entries@)
    }

    /// The keys, in the order in which they came.
    pub closed spec fn key_list(self) -> Seq<Seq<char>> {
        self.entries@.map_values(|e: (String, V)| e.0@)
    }

    /// The map without a key.
    pub fn new() -> (r: Self)
        ensures
            r@ == Map::<Seq<char>, V>::empty(),
            r.key_list() == Seq::<Seq<char>>::empty(),
    {
        let r = StrMap { entries: Vec::new() };
        assert(r@ =~= Map::<Seq<char>, V>::empty());
        r
    }

    /// How many keys there are.
    pub fn len(&self) -> (r: usize)
        ensures
            self@.dom().finite(),
            r == self@.dom().len(),
            r == self.key_list().len(),
            self.key_list().no_duplicates(),
    {
        proof {
            use_type_invariant(self);
            lemma_len(self.entries@);
            let keys = self.key_list();
            assert forall|i: int, j: int| 0 <= i < keys.len() && 0 <= j < keys.len() && i
                != j implies keys[i] != keys[j] by {
                if i < j {
                    assert(self.entries@[i].0@ != self.entries@[j].0@);
                } else {
                    assert(self.entries@[j].0@ != self.entries@[i].0@);
                }
            }
        }
        self.entries.len()
    }

    /// Whether there is no key.
    pub fn is_empty(&self) -> (r: bool)
        ensures
            r == (self@ == Map::<Seq<char>, V>::empty()),
            r == (self.key_list().len() == 0),
    {
        proof {
            use_type_invariant(self);
            lemma_len(self.entries@);
            if self.entries.len() == 0 {
                assert(self@ =~= Map::<Seq<char>, V>::empty());
            }
        }
        self.entries.len() == 0
    }

    /// Where the key stands.
    fn position(&self, key: &str) -> (r: Option<usize>)
        ensures
            match r {
                Some(i) => at_key(self.entries@, key@, i as int) && self@.dom().contains(key@)
                    && self@[key@] == self.entries@[i as int].1,
                None => !self@.dom().contains(key@) && forall|i: int|
                    0 <= i < self.entries@.len() ==> self.entries@[i].0@ != key@,
            },
    {
        proof {
            use_type_invariant(self);
        }
        let mut i: usize = 0;
        while i < self.entries.len()
            invariant
                i <= self.entries.len(),
                distinct(self.entries@),
                forall|j: int| 0 <= j < i ==> self.entries@[j].0@ != key@,
            decreases self.entries.len() - i,
        {
            if str_eq(self.entries[i].0.as_str(), key) {
                proof {
                    lemma_at(self.entries@, i as int);
                }
                return Some(i);
            }
            i = i + 1;
        }
        None
    }

    /// The value of the key, where it has one.
    pub fn get(&self, key: &str) -> (r: Option<&V>)
        ensures
            match r {
                Some(v) => self@.dom().contains(key@) && self@[key@] == *v,
                None => !self@.dom().contains(key@),
            },
    {
        match self.position(key) {
            Some(i) => Some(&self.entries[i].1),
            None => None,
        }
    }

    /// Whether the map has the key.
    pub fn contains_key(&self, key: &str) -> (r: bool)
        ensures
            r == self@.dom().contains(key@),
    {
        self.position(key).is_some()
    }

    /// Gives the key the value, in place of the one it had.
    pub fn insert(&mut self, key: String, value: V)
        ensures
            final(self)@ == old(self)@.insert(key@, value),
            final(self).key_list() == if old(self)@.dom().contains(key@) {
                old(self).key_list()
            } else {
                old(self).key_list().push(key@)
            },
    {
        let at: Option<usize> = self.position(key.as_str());
        proof {
            use_type_invariant(&*self);
        }
        let ghost before = self.entries@;
        let ghost before_keys = self.key_list();
        let mut e: Vec<(String, V)> = Vec::new();
        std::mem::swap(&mut e, &mut self.entries);
        match at {
            Some(i) => {
                proof {
                    lemma_update(before, i as int, key, value);
                }
                e[i] = (key, value);
            },
            None => {
                proof {
                    lemma_push(before, key, value);
                }
                e.push((key, value));
            },
        }
        self.entries = e;
        proof {
            let now = self.entries@.map_values(|e: (String, V)| e.0@);
            if at is Some {
                assert(now =~= before_keys);
            } else {
                assert(now =~= before_keys.push(key@));
            }
        }
    }

    /// Takes the key out and hands its value back.
    pub fn remove(&mut self, key: &str) -> (r: Option<V>)
        ensures
            final(self)@ == old(self)@.remove(key@),
            match r {
                Some(v) => old(self)@.dom().contains(key@) && old(self)@[key@] == v,
                None => !old(self)@.dom().contains(key@),
            },
    {
        match self.position(key) {
            Some(i) => {
                proof {
                    use_type_invariant(&*self);
                    lemma_remove(self.entries@, i as int);
                }
                let mut e: Vec<(String, V)> = Vec::new();
                std::mem::swap(&mut e, &mut self.entries);
                let (_, v) = e.remove(i);
                self.entries = e;
                Some(v)
            },
            None => {
                assert(self@.remove(key@) =~= self@);
                None
            },
        }
    }

    /// The key that came at place `i`, with its value.
    pub fn entry(&self, i: usize) -> (r: (&String, &V))
        requires
            i < self.key_list().len(),
        ensures
            r.0@ == self.key_list()[i as int],
            self@.dom().contains(r.0@),
            self@[r.0@] == *r.1,
    {
        proof {
            use_type_invariant(self);
            lemma_at(self.entries@, i as int);
        }
        let e: &(String, V) = &self.entries[i];
        (&e.0, &e.1)
    }
}

/// The character sequences of the values.
pub open spec fn texts(m: Map<Seq<char>, String>) -> Map<Seq<char>, Seq<char>> {
    m.map_values(|s: String| s@)
}

impl Clone for StrMap<String> {
    fn clone(&self) -> (r: Self)
        ensures
            r@ == self@,
            r.key_list() == self.key_list(),
    {
        proof {
            use_type_invariant(self);
        }
        let mut e: Vec<(String, String)> = Vec::new();
        let mut i: usize = 0;
        while i < self.entries.len()
            invariant
                i <= self.entries.len(),
                e@ =~= self.entries@.take(i as int),
            decreases self.entries.len() - i,
        {
            let k: String = self.entries[i].0.clone();
            let v: String = self.entries[i].1.clone();
            e.push((k, v));
            i = i + 1;
        }
        assert(e@ =~= self.entries@);
        StrMap { entries: e }
    }
}

/// The keys of a map are those of its key list, each once.
pub proof fn lemma_keys<V>(m: &StrMap<V>, k: Seq<char>)
    ensures
        m.key_list().contains(k) ==> m@.dom().contains(k),
        m@.dom().contains(k) ==> m.key_list().contains(k),
{
    let e = m.entries@;
    if m.key_list().contains(k) {
        let i = choose|i: int| 0 <= i < m.key_list().len() && m.key_list()[i] == k;
        assert(at_key(e, k, i));
    }
    if m@.dom().contains(k) {
        let i = choose|i: int| at_key(e, k, i);
        assert(m.key_list()[i] == k);
    }
}

/// What is put under a key is found there, what was under another stays, and what is
/// taken away is not found any more.
pub proof fn lemma_put_and_get(
    put: &mut StrMap<String>,
    taken: &mut StrMap<String>,
    key: String,
    name: &str,
    value: String,
    other: Seq<char>,
    found: Option<&String>,
    gone: Option<String>,
)
    requires
        name@ == key@,
        other != key@,
        call_ensures(StrMap::<String>::insert, (put, key, value), ()),
        call_ensures(StrMap::<String>::get, (&*final(put), name), found),
        call_ensures(StrMap::<String>::remove, (taken, name), gone),
    ensures
        found is Some && *(found->0) == value,
        final(put)@.contains_key(other) <==> old(put)@.contains_key(other),
        old(put)@.contains_key(other) ==> final(put)@[other] == old(put)@[other],
        !final(taken)@.contains_key(key@),
        gone is Some <==> old(taken)@.contains_key(key@),
        final(taken)@.contains_key(other) <==> old(taken)@.contains_key(other),
{
}

} // verus!
