//! String-keyed associative containers backed by plain vectors.
//!
//! The ledger keeps three keyed collections (packet by credential,
//! credential set by owner, storage record by account).  Both containers
//! here carry a well-formedness predicate — keys are pairwise distinct — and
//! a mathematical view: a `Map` from key characters to values, or a `Set` of
//! key characters.

use vstd::prelude::*;

verus! {

/// The key sequence of an entry list, each key taken as its characters.
pub open spec fn kv_keys<Val>(s: Seq<(String, Val)>) -> Seq<Seq<char>> {
    s.map_values(|p: (String, Val)| p.0@)
}

/// Entry lists are well-formed when no key occurs twice.
pub open spec fn kv_wf<Val>(s: Seq<(String, Val)>) -> bool {
    kv_keys(s).no_duplicates()
}

/// The map an entry list denotes; later entries win, though a well-formed
/// list has no repeated keys.
pub open spec fn map_of<Val>(s: Seq<(String, Val)>) -> Map<Seq<char>, Val>
    decreases s.len(),
{
    if s.len() == 0 {
        Map::empty()
    } else {
        map_of(s.drop_last()).insert(s.last().0@, s.last().1)
    }
}

/// Dropping the last entry drops the last key.
proof fn lemma_kv_keys_drop_last<Val>(s: Seq<(String, Val)>)
    requires
        s.len() > 0,
    ensures
        kv_keys(s.drop_last()) =~= kv_keys(s).drop_last(),
{
}

/// A key is in the denoted map exactly when some entry carries it.
pub proof fn lemma_map_of_contains<Val>(s: Seq<(String, Val)>, k: Seq<char>)
    ensures
        map_of(s).contains_key(k) <==> (exists|i: int|
            0 <= i < s.len() && #[trigger] s[i].0@ == k),
    decreases s.len(),
{
    if s.len() > 0 {
        lemma_map_of_contains(s.drop_last(), k);
        if map_of(s).contains_key(k) {
            if s.last().0@ != k {
                let i = choose|i: int| 0 <= i < s.drop_last().len()
                    && #[trigger] s.drop_last()[i].0@ == k;
                assert(s[i].0@ == k);
            }
        }
        if exists|i: int| 0 <= i < s.len() && #[trigger] s[i].0@ == k {
            let i = choose|i: int| 0 <= i < s.len() && #[trigger] s[i].0@ == k;
            if i < s.len() - 1 {
                assert(s.drop_last()[i].0@ == k);
            }
        }
    }
}

/// In a well-formed list the denoted map sends each entry's key to its value.
pub proof fn lemma_map_of_index<Val>(s: Seq<(String, Val)>, i: int)
    requires
        kv_wf(s),
        0 <= i < s.len(),
    ensures
        map_of(s).contains_key(s[i].0@),
        map_of(s)[s[i].0@] == s[i].1,
    decreases s.len(),
{
    lemma_map_of_contains(s, s[i].0@);
    if i < s.len() - 1 {
        lemma_kv_keys_drop_last(s);
        assert(kv_keys(s)[i] == s[i].0@);
        assert(kv_keys(s)[s.len() - 1] == s.last().0@);
        assert(s.last().0@ != s[i].0@);
        assert(s.drop_last()[i] == s[i]);
        lemma_map_of_index(s.drop_last(), i);
    }
}

/// Appending a fresh entry denotes the map with that binding inserted.
pub proof fn lemma_map_of_push<Val>(s: Seq<(String, Val)>, key: String, value: Val)
    ensures
        map_of(s.push((key, value))) == map_of(s).insert(key@, value),
        kv_wf(s) && !kv_keys(s).contains(key@) ==> kv_wf(s.push((key, value))),
{
    let t = s.push((key, value));
    assert(t.drop_last() =~= s);
    assert(t.last() == (key, value));
    if kv_wf(s) && !kv_keys(s).contains(key@) {
        assert(kv_keys(t) =~= kv_keys(s).push(key@));
        assert forall|i: int, j: int|
            0 <= i < j < kv_keys(t).len() implies kv_keys(t)[i] != kv_keys(t)[j] by {
            if j < kv_keys(s).len() {
            } else {
                assert(kv_keys(t)[i] == kv_keys(s)[i]);
                assert(kv_keys(s).contains(kv_keys(s)[i]));
            }
        }
    }
}

/// Inserting under one key and removing another commute.
proof fn lemma_map_insert_remove_commute<Val>(
    m: Map<Seq<char>, Val>,
    a: Seq<char>,
    v: Val,
    b: Seq<char>,
)
    requires
        a != b,
    ensures
        m.insert(a, v).remove(b) =~= m.remove(b).insert(a, v),
{
}

/// Removing an entry from a well-formed list removes its key's binding.
pub proof fn lemma_map_of_remove<Val>(s: Seq<(String, Val)>, i: int)
    requires
        kv_wf(s),
        0 <= i < s.len(),
    ensures
        map_of(s.remove(i)) =~= map_of(s).remove(s[i].0@),
        kv_wf(s.remove(i)),
        !kv_keys(s.remove(i)).contains(s[i].0@),
    decreases s.len(),
{
    let k = s[i].0@;
    lemma_kv_keys_drop_last(s);
    assert(kv_keys(s.remove(i)) =~= kv_keys(s).remove(i));
    assert(kv_keys(s).remove(i).no_duplicates());
    assert forall|j: int|
        0 <= j < kv_keys(s.remove(i)).len() implies #[trigger] kv_keys(s.remove(i))[j] != k by {
        assert(kv_keys(s)[i] == k);
        if j < i {
            assert(kv_keys(s.remove(i))[j] == kv_keys(s)[j]);
        } else {
            assert(kv_keys(s.remove(i))[j] == kv_keys(s)[j + 1]);
        }
    }
    if i == s.len() - 1 {
        assert(s.remove(i) =~= s.drop_last());
        lemma_map_of_contains(s.drop_last(), k);
        assert forall|j: int|
            0 <= j < s.drop_last().len() implies #[trigger] s.drop_last()[j].0@ != k by {
            assert(kv_keys(s)[j] == s[j].0@);
            assert(kv_keys(s)[i] == k);
        }
        assert(!map_of(s.drop_last()).contains_key(k));
        assert(map_of(s) == map_of(s.drop_last()).insert(k, s.last().1));
        assert(map_of(s).remove(k) =~= map_of(s.drop_last()));
    } else {
        let t = s.remove(i);
        assert(t.drop_last() =~= s.drop_last().remove(i));
        assert(t.last() == s.last());
        lemma_map_of_remove(s.drop_last(), i);
        assert(s.drop_last()[i] == s[i]);
        assert(map_of(t) == map_of(s.drop_last().remove(i)).insert(s.last().0@, s.last().1));
        assert(kv_keys(s)[i] == k);
        assert(kv_keys(s)[s.len() - 1] == s.last().0@);
        assert(s.last().0@ != k);
        lemma_map_insert_remove_commute(
            map_of(s.drop_last()),
            s.last().0@,
            s.last().1,
            k,
        );
    }
}

/// In a well-formed list, the denoted map has as many bindings as entries.
pub proof fn lemma_map_of_len<Val>(s: Seq<(String, Val)>)
    requires
        kv_wf(s),
    ensures
        map_of(s).dom().finite(),
        map_of(s).dom().len() == s.len(),
    decreases s.len(),
{
    broadcast use vstd::set::group_set_axioms;

    if s.len() > 0 {
        lemma_kv_keys_drop_last(s);
        lemma_map_of_len(s.drop_last());
        lemma_map_of_contains(s.drop_last(), s.last().0@);
        assert forall|j: int|
            0 <= j < s.drop_last().len() implies #[trigger] s.drop_last()[j].0@ != s.last().0@ by {
            assert(kv_keys(s)[j] == s[j].0@);
            assert(kv_keys(s)[s.len() - 1] == s.last().0@);
        }
        assert(!map_of(s.drop_last()).contains_key(s.last().0@));
        assert(map_of(s).dom() =~= map_of(s.drop_last()).dom().insert(s.last().0@));
    }
}

/// A vector of key–value entries with pairwise-distinct keys, seen as a
/// `Map` from key characters to values.
pub struct StringMap<Val> {
    pub entries: Vec<(String, Val)>,
}

impl<Val> View for StringMap<Val> {
    type V = Map<Seq<char>, Val>;

    open spec fn view(&self) -> Map<Seq<char>, Val> {
        map_of(self.entries@)
    }
}

impl<Val> StringMap<Val> {
    /// Keys are pairwise distinct.
    pub open spec fn wf(&self) -> bool {
        kv_wf(self.entries@)
    }

    pub fn new() -> (r: Self)
        ensures
            r.wf(),
            r@ == Map::<Seq<char>, Val>::empty(),
            r.entries@.len() == 0,
    {
        StringMap { entries: Vec::new() }
    }

    /// How many bindings the map holds.
    pub fn len(&self) -> (r: usize)
        requires
            self.wf(),
        ensures
            r == self.entries@.len(),
            r == self@.dom().len(),
    {
        proof {
            lemma_map_of_len(self.entries@);
        }
        self.entries.len()
    }

    /// The position of the entry carrying `key`, if any.
    fn index_of(&self, key: &String) -> (r: Option<usize>)
        ensures
            match r {
                Some(i) => i < self.entries@.len() && self.entries@[i as int].0@ == key@,
                None => forall|i: int|
                    0 <= i < self.entries@.len() ==> #[trigger] self.entries@[i].0@ != key@,
            },
    {
        let n = self.entries.len();
        let mut i: usize = 0;
        while i < n
            invariant
                n == self.entries@.len(),
                i <= n,
                forall|j: int| 0 <= j < i ==> #[trigger] self.entries@[j].0@ != key@,
            decreases n - i,
        {
            if self.entries[i].0 == *key {
                return Some(i);
            }
            i = i + 1;
        }
        None
    }

    pub fn contains_key(&self, key: &String) -> (r: bool)
        ensures
            r == self@.contains_key(key@),
    {
        proof {
            lemma_map_of_contains(self.entries@, key@);
        }
        self.index_of(key).is_some()
    }

    /// The value bound to `key`, if any.
    pub fn get(&self, key: &String) -> (r: Option<&Val>)
        requires
            self.wf(),
        ensures
            match r {
                Some(v) => self@.contains_key(key@) && *v == self@[key@],
                None => !self@.contains_key(key@),
            },
    {
        proof {
            lemma_map_of_contains(self.entries@, key@);
        }
        match self.index_of(key) {
            Some(i) => {
                proof {
                    lemma_map_of_index(self.entries@, i as int);
                }
                Some(&self.entries[i].1)
            },
            None => None,
        }
    }

    /// Bind `key` to `value`, replacing any previous binding.
    pub fn insert(&mut self, key: String, value: Val)
        requires
            old(self).wf(),
        ensures
            final(self).wf(),
            final(self)@ == old(self)@.insert(key@, value),
            !old(self)@.contains_key(key@)
                ==> final(self).entries@ == old(self).entries@.push((key, value)),
            old(self)@.contains_key(key@)
                ==> exists|i: int|
                    0 <= i < old(self).entries@.len()
                    && #[trigger] old(self).entries@[i].0@ == key@
                    && final(self).entries@ == old(self).entries@.remove(i).push((key, value)),
    {
        proof {
            lemma_map_of_contains(self.entries@, key@);
        }
        let ghost s0 = self.entries@;
        match self.index_of(&key) {
            Some(i) => {
                proof {
                    lemma_map_of_remove(s0, i as int);
                }
                self.entries.remove(i);
                proof {
                    lemma_map_of_push(self.entries@, key, value);
                    assert(map_of(s0).remove(key@).insert(key@, value)
                        =~= map_of(s0).insert(key@, value));
                }
                self.entries.push((key, value));
            },
            None => {
                proof {
                    lemma_map_of_push(s0, key, value);
                    assert forall|i: int|
                        0 <= i < kv_keys(s0).len() implies #[trigger] kv_keys(s0)[i] != key@ by {
                        assert(s0[i].0@ != key@);
                    }
                    assert(!kv_keys(s0).contains(key@));
                }
                self.entries.push((key, value));
            },
        }
    }

    /// Drop the binding of `key`, returning its value if one was bound.
    pub fn remove(&mut self, key: &String) -> (r: Option<Val>)
        requires
            old(self).wf(),
        ensures
            final(self).wf(),
            final(self)@ == old(self)@.remove(key@),
            r is Some <==> old(self)@.contains_key(key@),
            r is Some ==> r->0 == old(self)@[key@],
            !old(self)@.contains_key(key@) ==> *final(self) == *old(self),
            old(self)@.contains_key(key@)
                ==> exists|i: int|
                    0 <= i < old(self).entries@.len()
                    && #[trigger] old(self).entries@[i].0@ == key@
                    && final(self).entries@ == old(self).entries@.remove(i),
    {
        proof {
            lemma_map_of_contains(self.entries@, key@);
        }
        let ghost s0 = self.entries@;
        match self.index_of(key) {
            Some(i) => {
                proof {
                    lemma_map_of_remove(s0, i as int);
                    lemma_map_of_index(s0, i as int);
                }
                let (_, v) = self.entries.remove(i);
                Some(v)
            },
            None => {
                proof {
                    assert(!map_of(s0).contains_key(key@));
                    assert(map_of(s0).remove(key@) =~= map_of(s0));
                }
                None
            },
        }
    }
}

impl<Val: Copy> StringMap<Val> {
    /// An element-wise copy, equal to this map entry for entry.
    pub fn duplicate(&self) -> (r: Self)
        ensures
            r.entries@ == self.entries@,
            r@ == self@,
            r.wf() == self.wf(),
    {
        let mut entries: Vec<(String, Val)> = Vec::new();
        let n = self.entries.len();
        let mut i: usize = 0;
        while i < n
            invariant
                n == self.entries@.len(),
                i <= n,
                entries@ =~= self.entries@.take(i as int),
            decreases n - i,
        {
            let pair = &self.entries[i];
            entries.push((pair.0.clone(), pair.1));
            i = i + 1;
            proof {
                assert(entries@ =~= self.entries@.take(i as int));
            }
        }
        proof {
            assert(entries@ =~= self.entries@);
        }
        StringMap { entries }
    }
}

/// A vector of pairwise-distinct strings, seen as a `Set` of key characters.
pub struct StringSet {
    pub items: Vec<String>,
}

impl View for StringSet {
    type V = Set<Seq<char>>;

    open spec fn view(&self) -> Set<Seq<char>> {
        self.key_seq().to_set()
    }
}

impl StringSet {
    /// The members' characters, in insertion order.
    pub open spec fn key_seq(&self) -> Seq<Seq<char>> {
        self.items@.map_values(|x: String| x@)
    }

    /// Members are pairwise distinct.
    pub open spec fn wf(&self) -> bool {
        self.key_seq().no_duplicates()
    }

    pub fn new() -> (r: Self)
        ensures
            r.wf(),
            r@ =~= Set::<Seq<char>>::empty(),
            r.items@.len() == 0,
    {
        StringSet { items: Vec::new() }
    }

    /// How many members the set holds.
    pub fn len(&self) -> (r: usize)
        requires
            self.wf(),
        ensures
            r == self.items@.len(),
            r == self@.len(),
    {
        proof {
            self.key_seq().unique_seq_to_set();
        }
        self.items.len()
    }

    pub fn is_empty(&self) -> (r: bool)
        requires
            self.wf(),
        ensures
            r == (self.items@.len() == 0),
            r == (self@.len() == 0),
    {
        proof {
            self.key_seq().unique_seq_to_set();
        }
        self.items.len() == 0
    }

    /// The position of `key` among the members, if present.
    fn index_of(&self, key: &String) -> (r: Option<usize>)
        ensures
            match r {
                Some(i) => i < self.items@.len() && self.items@[i as int]@ == key@,
                None => forall|i: int|
                    0 <= i < self.items@.len() ==> #[trigger] self.items@[i]@ != key@,
            },
    {
        let n = self.items.len();
        let mut i: usize = 0;
        while i < n
            invariant
                n == self.items@.len(),
                i <= n,
                forall|j: int| 0 <= j < i ==> #[trigger] self.items@[j]@ != key@,
            decreases n - i,
        {
            if self.items[i] == *key {
                return Some(i);
            }
            i = i + 1;
        }
        None
    }

    pub fn contains(&self, key: &String) -> (r: bool)
        ensures
            r == self@.contains(key@),
    {
        let r = self.index_of(key);
        proof {
            if r is Some {
                let i = r->0 as int;
                assert(self.key_seq()[i] == key@);
                assert(self.key_seq().contains(key@));
            } else {
                assert forall|i: int|
                    0 <= i < self.key_seq().len() implies #[trigger] self.key_seq()[i] != key@ by {
                    assert(self.items@[i]@ != key@);
                }
            }
        }
        r.is_some()
    }

    /// Add `key`; no effect when it is already a member.
    pub fn insert(&mut self, key: String)
        requires
            old(self).wf(),
        ensures
            final(self).wf(),
            final(self)@ =~= old(self)@.insert(key@),
            old(self)@.contains(key@) ==> *final(self) == *old(self),
            !old(self)@.contains(key@) ==> final(self).items@ == old(self).items@.push(key),
    {
        let present = self.contains(&key);
        if !present {
            let ghost s0 = self.key_seq();
            self.items.push(key);
            proof {
                assert(self.key_seq() =~= s0.push(key@));
                s0.lemma_push_to_set_commute(key@);
                assert forall|i: int, j: int|
                    0 <= i < j < self.key_seq().len()
                    implies self.key_seq()[i] != self.key_seq()[j] by {
                    if j == self.key_seq().len() - 1 {
                        assert(s0.contains(s0[i]));
                    }
                }
            }
        } else {
            proof {
                assert(self@.insert(key@) =~= self@);
            }
        }
    }

    /// Drop `key`; reports whether it was a member.
    pub fn remove(&mut self, key: &String) -> (r: bool)
        requires
            old(self).wf(),
        ensures
            final(self).wf(),
            final(self)@ =~= old(self)@.remove(key@),
            r == old(self)@.contains(key@),
            !r ==> *final(self) == *old(self),
            r ==> exists|i: int|
                0 <= i < old(self).items@.len()
                && #[trigger] old(self).items@[i]@ == key@
                && final(self).items@ == old(self).items@.remove(i),
    {
        let ghost s0 = self.key_seq();
        match self.index_of(key) {
            Some(i) => {
                proof {
                    assert(s0[i as int] == key@);
                    assert(s0.contains(key@));
                }
                self.items.remove(i);
                proof {
                    let ii = i as int;
                    assert(self.key_seq() =~= s0.remove(ii));
                    assert(s0.remove(ii).no_duplicates());
                    assert forall|x: Seq<char>|
                        s0.remove(ii).to_set().contains(x)
                        implies #[trigger] s0.to_set().remove(key@).contains(x) by {
                        let j = choose|j: int|
                            0 <= j < s0.remove(ii).len() && s0.remove(ii)[j] == x;
                        if j < ii {
                            assert(s0[j] == x);
                        } else {
                            assert(s0[j + 1] == x);
                        }
                    }
                    assert forall|x: Seq<char>|
                        s0.to_set().remove(key@).contains(x)
                        implies #[trigger] s0.remove(ii).to_set().contains(x) by {
                        let j = choose|j: int| 0 <= j < s0.len() && s0[j] == x;
                        assert(j != ii);
                        if j < ii {
                            assert(s0.remove(ii)[j] == x);
                        } else {
                            assert(s0.remove(ii)[j - 1] == x);
                        }
                    }
                    assert(s0.remove(ii).to_set() =~= s0.to_set().remove(key@));
                }
                true
            },
            None => {
                proof {
                    assert forall|i: int|
                        0 <= i < s0.len() implies #[trigger] s0[i] != key@ by {
                        assert(self.items@[i]@ != key@);
                    }
                    assert(!s0.contains(key@));
                    assert(s0.to_set().remove(key@) =~= s0.to_set());
                }
                false
            },
        }
    }

    /// An element-wise copy, equal to this set member for member.
    pub fn duplicate(&self) -> (r: Self)
        ensures
            r.items@ == self.items@,
            r@ == self@,
            r.wf() == self.wf(),
    {
        let mut items: Vec<String> = Vec::new();
        let n = self.items.len();
        let mut i: usize = 0;
        while i < n
            invariant
                n == self.items@.len(),
                i <= n,
                items@ =~= self.items@.take(i as int),
            decreases n - i,
        {
            items.push(self.items[i].clone());
            i = i + 1;
            proof {
                assert(items@ =~= self.items@.take(i as int));
            }
        }
        proof {
            assert(items@ =~= self.items@);
        }
        StringSet { items }
    }

    /// Drop every member.
    pub fn clear(&mut self)
        ensures
            final(self).wf(),
            final(self)@ =~= Set::<Seq<char>>::empty(),
            final(self).items@.len() == 0,
    {
        self.items.clear();
    }
}

} // verus!
