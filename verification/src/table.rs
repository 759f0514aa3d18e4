//! A map from texts to values, kept as a list of entries in insertion order.
use crate::parse::chars_of;
use crate::text::same;
use vstd::prelude::*;

verus! {

/// Entries with pairwise different keys.
#[derive(Debug)]
pub struct Table<V> {
    pub entries: Vec<(String, V)>,
}

/// The map that a list of entries stands for; a later entry covers an earlier
/// one of the same key.
pub open spec fn entries_map<V>(s: Seq<(String, V)>) -> Map<Seq<char>, V>
    decreases s.len(),
{
    if s.len() == 0 {
        Map::empty()
    } else {
        entries_map(s.drop_last()).insert(s.last().0@, s.last().1)
    }
}

/// No key occurs twice.
pub open spec fn distinct_keys<V>(s: Seq<(String, V)>) -> bool {
    forall|i: int, j: int|
        0 <= i < j < s.len() ==> (#[trigger] s[i]).0@ != (#[trigger] s[j]).0@
}

/// With distinct keys, the map holds exactly the entries.
pub proof fn entries_are_the_map<V>(s: Seq<(String, V)>)
    requires
        distinct_keys(s),
    ensures
        forall|i: int|
            0 <= i < s.len() ==> entries_map(s).contains_key((#[trigger] s[i]).0@) && entries_map(
                s,
            )[s[i].0@] == s[i].1,
        forall|k: Seq<char>|
            entries_map(s).contains_key(k) ==> exists|i: int|
                0 <= i < s.len() && (#[trigger] s[i]).0@ == k,
    decreases s.len(),
{
    if s.len() > 0 {
        let front = s.drop_last();
        assert forall|i: int, j: int| 0 <= i < j < front.len() implies (#[trigger] front[i]).0@ != (
        #[trigger] front[j]).0@ by {
            assert(s[i].0@ != s[j].0@);
        }
        entries_are_the_map(front);
        assert forall|i: int| 0 <= i < s.len() implies entries_map(s).contains_key(
            (#[trigger] s[i]).0@,
        ) && entries_map(s)[s[i].0@] == s[i].1 by {
            if i < s.len() - 1 {
                assert(front[i] == s[i]);
                assert(s[i].0@ != s[s.len() - 1].0@);
            }
        }
        assert forall|k: Seq<char>| entries_map(s).contains_key(k) implies exists|i: int|
            0 <= i < s.len() && (#[trigger] s[i]).0@ == k by {
            if k == s.last().0@ {
                assert(s[s.len() - 1].0@ == k);
            } else {
                assert(entries_map(front).contains_key(k));
                let i = choose|i: int| 0 <= i < front.len() && (#[trigger] front[i]).0@ == k;
                assert(s[i] == front[i]);
            }
        }
    }
}

/// Changing the value of an entry changes the map at its key.
proof fn changed_entry<V>(s: Seq<(String, V)>, at: int)
    requires
        0 <= at < s.len(),
        distinct_keys(s),
    ensures
        forall|v: V|
            distinct_keys(#[trigger] s.update(at, (s[at].0, v))) && entries_map(
                s.update(at, (s[at].0, v)),
            ) == entries_map(s).insert(s[at].0@, v),
{
    assert forall|v: V|
        distinct_keys(#[trigger] s.update(at, (s[at].0, v))) && entries_map(
            s.update(at, (s[at].0, v)),
        ) == entries_map(s).insert(s[at].0@, v) by {
        let u = s.update(at, (s[at].0, v));
        assert forall|i: int, j: int| 0 <= i < j < u.len() implies (#[trigger] u[i]).0@ != (
        #[trigger] u[j]).0@ by {
            assert(s[i].0@ != s[j].0@);
        }
        entries_are_the_map(s);
        entries_are_the_map(u);
        let m = entries_map(s).insert(s[at].0@, v);
        assert forall|k: Seq<char>| entries_map(u).contains_key(k) == m.contains_key(k) by {
            if entries_map(u).contains_key(k) {
                let i = choose|i: int| 0 <= i < u.len() && (#[trigger] u[i]).0@ == k;
                assert(s[i].0@ == k);
            }
            if m.contains_key(k) {
                if k == s[at].0@ {
                    assert(u[at].0@ == k);
                } else {
                    let i = choose|i: int| 0 <= i < s.len() && (#[trigger] s[i]).0@ == k;
                    assert(u[i].0@ == k);
                }
            }
        }
        assert forall|k: Seq<char>| entries_map(u).contains_key(k) implies entries_map(u)[k]
            == m[k] by {
            let i = choose|i: int| 0 <= i < u.len() && (#[trigger] u[i]).0@ == k;
            assert(s[i].0@ == k);
            if i != at {
                if s[at].0@ == k {
                    if i < at {
                        assert(s[i].0@ != s[at].0@);
                    } else {
                        assert(s[at].0@ != s[i].0@);
                    }
                }
            }
        }
        assert(entries_map(u) =~= m);
    }
}

/// `a` comes before `b` in the order of their characters.
pub open spec fn precedes(a: Seq<char>, b: Seq<char>) -> bool
    decreases a.len(),
{
    if b.len() == 0 {
        false
    } else if a.len() == 0 {
        true
    } else if a[0] != b[0] {
        a[0] < b[0]
    } else {
        precedes(a.drop_first(), b.drop_first())
    }
}

/// The order is one: of two different texts exactly one comes first, and it
/// passes from text to text.
pub proof fn precedes_is_an_order(a: Seq<char>, b: Seq<char>, c: Seq<char>)
    ensures
        !precedes(a, a),
        a != b ==> precedes(a, b) || precedes(b, a),
        !(precedes(a, b) && precedes(b, a)),
        precedes(a, b) && precedes(b, c) ==> precedes(a, c),
    decreases a.len() + b.len() + c.len(),
{
    if a.len() > 0 {
        precedes_is_an_order(a.drop_first(), b.take(0), c.take(0));
    }
    if a.len() == 0 && b.len() == 0 {
        assert(a =~= b);
    }
    if a.len() > 0 && b.len() > 0 {
        if c.len() > 0 {
            precedes_is_an_order(a.drop_first(), b.drop_first(), c.drop_first());
        } else {
            precedes_is_an_order(a.drop_first(), b.drop_first(), c);
        }
        if a[0] == b[0] && a.drop_first() == b.drop_first() {
            assert(a =~= seq![a[0]] + a.drop_first());
            assert(b =~= seq![b[0]] + b.drop_first());
        }
    }
}

/// Whether a text comes before another.
pub fn comes_before(a: &str, b: &str) -> (r: bool)
    ensures
        r == precedes(a@, b@),
{
    let v = chars_of(a);
    let w = chars_of(b);
    let mut i: usize = 0;
    assert(v@.skip(0) == v@);
    assert(w@.skip(0) == w@);
    while i < v.len() && i < w.len() && v[i] == w[i]
        invariant
            v@ == a@,
            w@ == b@,
            i <= v.len(),
            i <= w.len(),
            precedes(a@, b@) == precedes(v@.skip(i as int), w@.skip(i as int)),
        decreases v.len() - i,
    {
        assert(v@.skip(i as int).drop_first() == v@.skip(i + 1));
        assert(w@.skip(i as int).drop_first() == w@.skip(i + 1));
        i = i + 1;
    }
    if i >= w.len() {
        false
    } else if i >= v.len() {
        true
    } else {
        v[i] < w[i]
    }
}

/// The keys come in order.
pub open spec fn in_order<V>(s: Seq<(String, V)>) -> bool {
    forall|i: int, j: int|
        0 <= i < j < s.len() ==> precedes((#[trigger] s[i]).0@, (#[trigger] s[j]).0@)
}

/// Entries with the same keys and values, each key once, make the same map.
pub proof fn same_entries_same_map<V>(s: Seq<(String, V)>, m: Map<Seq<char>, V>)
    requires
        distinct_keys(s),
        forall|i: int|
            0 <= i < s.len() ==> m.contains_key((#[trigger] s[i]).0@) && m[s[i].0@] == s[i].1,
        forall|k: Seq<char>|
            m.contains_key(k) ==> exists|i: int| 0 <= i < s.len() && (#[trigger] s[i]).0@ == k,
    ensures
        entries_map(s) == m,
{
    entries_are_the_map(s);
    let e = entries_map(s);
    assert forall|k: Seq<char>| e.contains_key(k) == m.contains_key(k) by {
        if e.contains_key(k) {
            let i = choose|i: int| 0 <= i < s.len() && (#[trigger] s[i]).0@ == k;
            assert(m.contains_key(s[i].0@));
        }
        if m.contains_key(k) {
            let i = choose|i: int| 0 <= i < s.len() && (#[trigger] s[i]).0@ == k;
            assert(e.contains_key(s[i].0@));
        }
    }
    assert forall|k: Seq<char>| e.contains_key(k) implies e[k] == m[k] by {
        let i = choose|i: int| 0 <= i < s.len() && (#[trigger] s[i]).0@ == k;
        assert(e[s[i].0@] == s[i].1 && m[s[i].0@] == s[i].1);
    }
    assert(e =~= m);
}

impl<V> View for Table<V> {
    type V = Map<Seq<char>, V>;

    open spec fn view(&self) -> Map<Seq<char>, V> {
        entries_map(self.entries@)
    }
}

impl<V> Table<V> {
    pub open spec fn wf(&self) -> bool {
        distinct_keys(self.entries@)
    }

    /// The empty table.
    pub fn new() -> (t: Self)
        ensures
            t@ == Map::<Seq<char>, V>::empty(),
            t.wf(),
            t.entries@.len() == 0,
    {
        Table { entries: Vec::new() }
    }

    /// The index of the entry with this key.
    pub fn position(&self, key: &str) -> (r: Option<usize>)
        requires
            self.wf(),
        ensures
            match r {
                Some(i) => i < self.entries.len() && self.entries@[i as int].0@ == key@
                    && self@.contains_key(key@) && self@[key@] == self.entries@[i as int].1,
                None => !self@.contains_key(key@),
            },
    {
        proof {
            entries_are_the_map(self.entries@);
        }
        let mut i: usize = 0;
        while i < self.entries.len()
            invariant
                i <= self.entries.len(),
                forall|j: int| 0 <= j < i ==> (#[trigger] self.entries@[j]).0@ != key@,
                forall|i: int|
                    0 <= i < self.entries@.len() ==> entries_map(self.entries@).contains_key(
                        (#[trigger] self.entries@[i]).0@,
                    ) && entries_map(self.entries@)[self.entries@[i].0@] == self.entries@[i].1,
            decreases self.entries.len() - i,
        {
            if same(self.entries[i].0.as_str(), key) {
                return Some(i);
            }
            i = i + 1;
        }
        None
    }

    /// The value of a key.
    pub fn get(&self, key: &str) -> (r: Option<&V>)
        requires
            self.wf(),
        ensures
            match r {
                Some(v) => self@.contains_key(key@) && *v == self@[key@],
                None => !self@.contains_key(key@),
            },
    {
        match self.position(key) {
            Some(i) => Some(&self.entries[i].1),
            None => None,
        }
    }

    /// The value of a key that is there, to be changed in place.
    pub fn value_mut(&mut self, key: &str) -> (v: &mut V)
        requires
            old(self).wf(),
            old(self)@.contains_key(key@),
        ensures
            *v == old(self)@[key@],
            final(self).wf(),
            final(self)@ == old(self)@.insert(key@, *final(v)),
            final(self).entries@.len() == old(self).entries@.len(),
    {
        let at: usize = match self.position(key) {
            Some(i) => i,
            None => 0,
        };
        proof {
            changed_entry(self.entries@, at as int);
        }
        &mut self.entries[at].1
    }

    /// Sets the value of a key.
    pub fn insert(&mut self, key: String, value: V)
        requires
            old(self).wf(),
        ensures
            final(self).wf(),
            final(self)@ == old(self)@.insert(key@, value),
            final(self).entries@.len() == old(self).entries@.len() + (if old(self)@.contains_key(
                key@,
            ) {
                0int
            } else {
                1
            }),
            forall|i: int|
                0 <= i < old(self).entries@.len() ==> (#[trigger] final(self).entries@[i]).0@ == old(self).entries@[i].0@,
    {
        let ghost before = self.entries@;
        match self.position(key.as_str()) {
            Some(i) => {
                let ghost k = key@;
                self.entries.set(i, (key, value));
                proof {
                    let after = self.entries@;
                    assert forall|a: int, b: int| 0 <= a < b < after.len() implies (
                    #[trigger] after[a]).0@ != (#[trigger] after[b]).0@ by {
                        assert(before[a].0@ != before[b].0@);
                    }
                    entries_are_the_map(before);
                    entries_are_the_map(after);
                    assert forall|q: Seq<char>|
                        entries_map(after).contains_key(q) == entries_map(before).insert(
                            k,
                            value,
                        ).contains_key(q) by {
                        if entries_map(after).contains_key(q) {
                            let a = choose|a: int| 0 <= a < after.len() && (#[trigger] after[a]).0@
                                == q;
                            assert(before[a].0@ == q);
                        }
                        if entries_map(before).contains_key(q) {
                            let a = choose|a: int|
                                0 <= a < before.len() && (#[trigger] before[a]).0@ == q;
                            assert(after[a].0@ == q);
                        }
                        assert(after[i as int].0@ == k);
                    }
                    assert forall|q: Seq<char>| entries_map(after).contains_key(q) implies
                        entries_map(after)[q] == entries_map(before).insert(k, value)[q] by {
                        let a = choose|a: int| 0 <= a < after.len() && (#[trigger] after[a]).0@ == q;
                        assert(before[a].0@ == q);
                        assert(after[i as int].0@ == k);
                    }
                    assert(entries_map(after) =~= entries_map(before).insert(k, value));
                }
            },
            None => {
                proof {
                    entries_are_the_map(before);
                }
                self.entries.push((key, value));
                assert(self.entries@.drop_last() == before);
            },
        }
    }

    /// Takes the value of a key out.
    pub fn remove(&mut self, key: &str) -> (r: Option<V>)
        requires
            old(self).wf(),
        ensures
            final(self).wf(),
            final(self)@ == old(self)@.remove(key@),
            match r {
                Some(v) => old(self)@.contains_key(key@) && v == old(self)@[key@],
                None => !old(self)@.contains_key(key@) && final(self).entries@ == old(self).entries@,
            },
    {
        let ghost before = self.entries@;
        let ghost m = self@.remove(key@);
        match self.position(key) {
            Some(i) => {
                let e = self.entries.remove(i);
                proof {
                    let after = self.entries@;
                    entries_are_the_map(before);
                    assert(forall|j: int| 0 <= j < i ==> #[trigger] after[j] == before[j]);
                    assert(forall|j: int|
                        i <= j < after.len() ==> #[trigger] after[j] == before[j + 1]);
                    assert forall|a: int, b: int| 0 <= a < b < after.len() implies (
                    #[trigger] after[a]).0@ != (#[trigger] after[b]).0@ by {
                        let x = if a < i { a } else { a + 1 };
                        let y = if b < i { b } else { b + 1 };
                        assert(before[x].0@ != before[y].0@);
                    }
                    assert forall|j: int| 0 <= j < after.len() implies m.contains_key(
                        (#[trigger] after[j]).0@,
                    ) && m[after[j].0@] == after[j].1 by {
                        let x = if j < i { j } else { j + 1 };
                        assert(entries_map(before).contains_key(before[x].0@));
                        if x < i {
                            assert(before[x].0@ != before[i as int].0@);
                        } else {
                            assert(before[i as int].0@ != before[x].0@);
                        }
                    }
                    assert forall|q: Seq<char>| m.contains_key(q) implies exists|j: int|
                        0 <= j < after.len() && (#[trigger] after[j]).0@ == q by {
                        assert(entries_map(before).contains_key(q));
                        let x = choose|j: int| 0 <= j < before.len() && (#[trigger] before[j]).0@ == q;
                        if x < i {
                            assert(after[x].0@ == q);
                        } else {
                            assert(x != i);
                            assert(after[x - 1].0@ == q);
                        }
                    }
                    same_entries_same_map(after, m);
                }
                Some(e.1)
            },
            None => {
                assert(self@ =~= m);
                None
            },
        }
    }

    /// The keys come in order.
    pub open spec fn sorted(&self) -> bool {
        in_order(self.entries@)
    }

    /// Sets the value of a key in a table whose keys come in order.
    pub fn insert_sorted(&mut self, key: String, value: V)
        requires
            old(self).wf(),
            old(self).sorted(),
        ensures
            final(self).wf(),
            final(self).sorted(),
            final(self)@ == old(self)@.insert(key@, value),
    {
        let ghost before = self.entries@;
        let ghost k = key@;
        match self.position(key.as_str()) {
            Some(i) => {
                self.insert(key, value);
                proof {
                    let after = self.entries@;
                    assert forall|a: int, b: int| 0 <= a < b < after.len() implies precedes(
                        (#[trigger] after[a]).0@,
                        (#[trigger] after[b]).0@,
                    ) by {
                        assert(precedes(before[a].0@, before[b].0@));
                    }
                }
            },
            None => {
                let mut at: usize = 0;
                while at < self.entries.len() && comes_before(
                    self.entries[at].0.as_str(),
                    key.as_str(),
                )
                    invariant
                        self.entries@ == before,
                        key@ == k,
                        at <= before.len(),
                        forall|j: int| 0 <= j < at ==> precedes((#[trigger] before[j]).0@, k),
                    decreases before.len() - at,
                {
                    at = at + 1;
                }
                proof {
                    entries_are_the_map(before);
                    assert forall|j: int| at <= j < before.len() implies precedes(
                        k,
                        (#[trigger] before[j]).0@,
                    ) by {
                        assert(before[at as int].0@ != k) by {
                            assert(entries_map(before).contains_key(before[at as int].0@));
                        }
                        precedes_is_an_order(k, before[at as int].0@, before[j].0@);
                    }
                }
                self.entries.insert(at, (key, value));
                proof {
                    let after = self.entries@;
                    let m = entries_map(before).insert(k, value);
                    assert(forall|j: int| 0 <= j < at ==> #[trigger] after[j] == before[j]);
                    assert(after[at as int].0@ == k && after[at as int].1 == value);
                    assert(forall|j: int| at < j < after.len() ==> #[trigger] after[j] == before[j - 1]);
                    assert forall|a: int, b: int| 0 <= a < b < after.len() implies precedes(
                        (#[trigger] after[a]).0@,
                        (#[trigger] after[b]).0@,
                    ) by {
                        if a != at && b != at {
                            let x = if a < at { a } else { a - 1 };
                            let y = if b < at { b } else { b - 1 };
                            assert(precedes(before[x].0@, before[y].0@));
                        } else if a == at {
                            assert(precedes(k, before[b - 1].0@));
                        } else {
                            assert(precedes(before[a].0@, k));
                        }
                    }
                    assert forall|a: int, b: int| 0 <= a < b < after.len() implies (
                    #[trigger] after[a]).0@ != (#[trigger] after[b]).0@ by {
                        precedes_is_an_order(after[a].0@, after[b].0@, k);
                    }
                    assert forall|i: int| 0 <= i < after.len() implies m.contains_key(
                        (#[trigger] after[i]).0@,
                    ) && m[after[i].0@] == after[i].1 by {
                        if i != at {
                            let x = if i < at { i } else { i - 1 };
                            assert(entries_map(before).contains_key(before[x].0@));
                            precedes_is_an_order(k, k, k);
                            assert(before[x].0@ != k);
                        }
                    }
                    assert forall|q: Seq<char>| m.contains_key(q) implies exists|i: int|
                        0 <= i < after.len() && (#[trigger] after[i]).0@ == q by {
                        if q == k {
                            assert(after[at as int].0@ == q);
                        } else {
                            assert(entries_map(before).contains_key(q));
                            let x = choose|i: int|
                                0 <= i < before.len() && (#[trigger] before[i]).0@ == q;
                            if x < at {
                                assert(after[x].0@ == q);
                            } else {
                                assert(after[x + 1].0@ == q);
                            }
                        }
                    }
                    same_entries_same_map(after, m);
                }
            },
        }
    }
}

} // verus!
