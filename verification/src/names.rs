//! Ordered maps from names to values.

use crate::bytes::str_eq;
use vstd::prelude::*;

verus! {

/// The order of texts: by their first difference, shorter first.
pub open spec fn text_less(a: Seq<char>, b: Seq<char>) -> bool
    decreases a.len(),
{
    if b.len() == 0 {
        false
    } else if a.len() == 0 {
        true
    } else if a[0] != b[0] {
        (a[0] as int) < (b[0] as int)
    } else {
        text_less(a.skip(1), b.skip(1))
    }
}

/// Of two different texts, one comes first.
pub proof fn lemma_text_total(a: Seq<char>, b: Seq<char>)
    ensures
        a == b || text_less(a, b) || text_less(b, a),
        text_less(a, b) ==> a != b && !text_less(b, a),
    decreases a.len(),
{
    if a.len() > 0 && b.len() > 0 && a[0] == b[0] {
        lemma_text_total(a.skip(1), b.skip(1));
        if a.skip(1) == b.skip(1) {
            assert(a =~= seq![a[0]] + a.skip(1));
            assert(b =~= seq![b[0]] + b.skip(1));
        }
    } else if a.len() == 0 && b.len() == 0 {
        assert(a =~= b);
    }
}

/// The order of texts is transitive.
pub proof fn lemma_text_trans(a: Seq<char>, b: Seq<char>, c: Seq<char>)
    requires
        text_less(a, b),
        text_less(b, c),
    ensures
        text_less(a, c),
    decreases a.len(),
{
    if a.len() > 0 && b.len() > 0 && c.len() > 0 && a[0] == b[0] && b[0] == c[0] {
        lemma_text_trans(a.skip(1), b.skip(1), c.skip(1));
    }
}

/// Whether one text comes before another.
pub fn text_before(a: &str, b: &str) -> (r: bool)
    ensures
        r == text_less(a@, b@),
{
    let n: usize = a.unicode_len();
    let m: usize = b.unicode_len();
    let mut i: usize = 0;
    assert(a@.skip(0) =~= a@);
    assert(b@.skip(0) =~= b@);
    while i < n && i < m
        invariant
            n == a@.len(),
            m == b@.len(),
            i <= n,
            i <= m,
            text_less(a@, b@) == text_less(a@.skip(i as int), b@.skip(i as int)),
        decreases n - i,
    {
        let ca: char = a.get_char(i);
        let cb: char = b.get_char(i);
        assert(a@.skip(i as int).skip(1) =~= a@.skip(i + 1));
        assert(b@.skip(i as int).skip(1) =~= b@.skip(i + 1));
        if ca != cb {
            return (ca as u32) < (cb as u32);
        }
        i = i + 1;
    }
    i < m
}

/// Texts in increasing order.
pub open spec fn ordered(names: Seq<Seq<char>>) -> bool {
    forall|i: int, j: int|
        0 <= i < j < names.len() ==> text_less(#[trigger] names[i], #[trigger] names[j])
}

/// Two lists of the same texts in increasing order are the same.
pub proof fn lemma_ordered_unique(a: Seq<Seq<char>>, b: Seq<Seq<char>>)
    requires
        ordered(a),
        ordered(b),
        forall|t: Seq<char>| a.contains(t) <==> b.contains(t),
    ensures
        a == b,
    decreases a.len(),
{
    if a.len() == 0 {
        if b.len() > 0 {
            assert(b.contains(b[0]));
        }
        assert(a =~= b);
    } else {
        assert(a.contains(a[0]));
        let k = choose|k: int| 0 <= k < b.len() && b[k] == a[0];
        assert(b.contains(b[0]));
        let j = choose|j: int| 0 <= j < a.len() && a[j] == b[0];
        if k > 0 {
            assert(text_less(b[0], b[k]));
            lemma_text_total(a[0], b[0]);
            if j > 0 {
                assert(text_less(a[0], a[j]));
            }
        }
        let a1 = a.skip(1);
        let b1 = b.skip(1);
        assert forall|t: Seq<char>| a1.contains(t) <==> b1.contains(t) by {
            if a1.contains(t) {
                let i = choose|i: int| 0 <= i < a1.len() && a1[i] == t;
                assert(a[i + 1] == t);
                assert(text_less(a[0], a[i + 1]));
                lemma_text_total(a[0], t);
                assert(a.contains(t));
                let q = choose|q: int| 0 <= q < b.len() && b[q] == t;
                assert(b1[q - 1] == t);
            }
            if b1.contains(t) {
                let i = choose|i: int| 0 <= i < b1.len() && b1[i] == t;
                assert(b[i + 1] == t);
                assert(text_less(b[0], b[i + 1]));
                lemma_text_total(b[0], t);
                assert(b.contains(t));
                let q = choose|q: int| 0 <= q < a.len() && a[q] == t;
                assert(a1[q - 1] == t);
            }
        }
        assert(ordered(a1)) by {
            assert forall|i: int, j: int| 0 <= i < j < a1.len() implies text_less(
                #[trigger] a1[i],
                #[trigger] a1[j],
            ) by {
                assert(text_less(a[i + 1], a[j + 1]));
            }
        }
        assert(ordered(b1)) by {
            assert forall|i: int, j: int| 0 <= i < j < b1.len() implies text_less(
                #[trigger] b1[i],
                #[trigger] b1[j],
            ) by {
                assert(text_less(b[i + 1], b[j + 1]));
            }
        }
        lemma_ordered_unique(a1, b1);
        assert(a =~= seq![a[0]] + a1);
        assert(b =~= seq![b[0]] + b1);
    }
}

/// A map from names to values, in the order of the names.
pub struct NameMap<V> {
    entries: Vec<(String, V)>,
}

/// The names of some entries.
pub open spec fn names_of<V>(entries: Seq<(String, V)>) -> Seq<Seq<char>> {
    entries.map_values(|e: (String, V)| e.0@)
}

/// The map that some entries with different names make.
pub open spec fn map_of<V>(entries: Seq<(String, V)>) -> Map<Seq<char>, V> {
    Map::new(
        |k: Seq<char>| names_of(entries).contains(k),
        |k: Seq<char>| entries[names_of(entries).index_of(k)].1,
    )
}

/// Where a name is among entries in order, its value is found.
proof fn lemma_at<V>(entries: Seq<(String, V)>, i: int)
    requires
        ordered(names_of(entries)),
        0 <= i < entries.len(),
    ensures
        map_of(entries).contains_key(entries[i].0@),
        map_of(entries)[entries[i].0@] == entries[i].1,
{
    let names = names_of(entries);
    let k = entries[i].0@;
    assert(names[i] == k);
    assert(names.contains(k));
    let j = names.index_of(k);
    lemma_text_total(names[i], names[j]);
    if i < j {
        assert(text_less(names[i], names[j]));
    } else if j < i {
        assert(text_less(names[j], names[i]));
    }
}

impl<V> NameMap<V> {
    pub closed spec fn view(&self) -> Map<Seq<char>, V> {
        map_of(self.entries@)
    }

    /// The names are in order, so none occurs twice.
    pub closed spec fn wf(&self) -> bool {
        ordered(names_of(self.entries@))
    }

    /// A map without names.
    pub fn new() -> (r: NameMap<V>)
        ensures
            r.wf(),
            r@ == Map::<Seq<char>, V>::empty(),
    {
        let r: NameMap<V> = NameMap { entries: Vec::new() };
        assert(r@ =~= Map::<Seq<char>, V>::empty()) by {
            assert(names_of(r.entries@).len() == 0);
        }
        r
    }

    /// The first position whose name does not come before `name`.
    fn position(&self, name: &str) -> (r: usize)
        requires
            self.wf(),
        ensures
            r <= self.entries@.len(),
            forall|i: int| 0 <= i < r ==> text_less(#[trigger] names_of(self.entries@)[i], name@),
            forall|i: int|
                r <= i < self.entries@.len() ==> !text_less(
                    #[trigger] names_of(self.entries@)[i],
                    name@,
                ),
    {
        let ghost names = names_of(self.entries@);
        let mut i: usize = 0;
        while i < self.entries.len()
            invariant
                i <= self.entries@.len(),
                self.wf(),
                names == names_of(self.entries@),
                forall|k: int| 0 <= k < i ==> text_less(#[trigger] names[k], name@),
            decreases self.entries@.len() - i,
        {
            assert(names[i as int] == self.entries@[i as int].0@);
            if !text_before(self.entries[i].0.as_str(), name) {
                proof {
                    assert forall|k: int| i <= k < names.len() implies !text_less(
                        #[trigger] names[k],
                        name@,
                    ) by {
                        if k > i && text_less(names[k], name@) {
                            assert(text_less(names[i as int], names[k]));
                            lemma_text_trans(names[i as int], names[k], name@);
                        }
                    }
                }
                return i;
            }
            i = i + 1;
        }
        i
    }

    /// Where a name is.
    fn find(&self, name: &str) -> (r: Option<usize>)
        requires
            self.wf(),
        ensures
            match r {
                Some(i) => i < self.entries@.len() && self.entries@[i as int].0@ == name@
                    && self@.contains_key(name@) && self@[name@] == self.entries@[i as int].1,
                None => !self@.contains_key(name@),
            },
    {
        let i: usize = self.position(name);
        let ghost names = names_of(self.entries@);
        if i < self.entries.len() && str_eq(self.entries[i].0.as_str(), name) {
            proof {
                lemma_at(self.entries@, i as int);
            }
            Some(i)
        } else {
            proof {
                if names.contains(name@) {
                    let j = choose|j: int| 0 <= j < names.len() && names[j] == name@;
                    lemma_text_total(name@, name@);
                    if j < i {
                        assert(text_less(names[j], name@));
                    } else if j > i {
                        assert(text_less(names[i as int], names[j]));
                    } else {
                        assert(names[i as int] == self.entries@[i as int].0@);
                    }
                }
            }
            None
        }
    }

    /// The value of a name.
    pub fn get(&self, name: &str) -> (r: Option<&V>)
        requires
            self.wf(),
        ensures
            match r {
                Some(v) => self@.contains_key(name@) && *v == self@[name@],
                None => !self@.contains_key(name@),
            },
    {
        match self.find(name) {
            Some(i) => Some(&self.entries[i].1),
            None => None,
        }
    }

    /// Whether there is a name.
    pub fn contains(&self, name: &str) -> (r: bool)
        requires
            self.wf(),
        ensures
            r == self@.contains_key(name@),
    {
        self.find(name).is_some()
    }

    /// Removes a name.
    pub fn remove(&mut self, name: &str) -> (r: Option<V>)
        requires
            old(self).wf(),
        ensures
            final(self).wf(),
            final(self)@ == old(self)@.remove(name@),
            match r {
                Some(v) => old(self)@.contains_key(name@) && v == old(self)@[name@],
                None => !old(self)@.contains_key(name@),
            },
    {
        match self.find(name) {
            None => {
                assert(self@ =~= self@.remove(name@));
                None
            },
            Some(i) => {
                let ghost before = self.entries@;
                let (_, v) = self.entries.remove(i);
                proof {
                    lemma_removed(before, i as int, name@);
                }
                Some(v)
            },
        }
    }

    /// Gives a name a value, in place of the one that it had.
    pub fn insert(&mut self, name: &str, v: V)
        requires
            old(self).wf(),
        ensures
            final(self).wf(),
            final(self)@ == old(self)@.insert(name@, v),
    {
        let ghost m = self@;
        self.remove(name);
        let i: usize = self.position(name);
        let ghost before = self.entries@;
        proof {
            let names = names_of(before);
            assert(!self@.contains_key(name@));
            assert forall|k: int| i <= k < names.len() implies text_less(
                name@,
                #[trigger] names[k],
            ) by {
                lemma_text_total(names[k], name@);
                if names[k] == name@ {
                    assert(names.contains(names[k]));
                    assert(map_of(before).contains_key(name@));
                }
            }
        }
        self.entries.insert(i, (name.to_owned(), v));
        proof {
            assert(self.entries@ == before.insert(i as int, self.entries@[i as int]));
            lemma_inserted(before, i as int, self.entries@[i as int]);
            assert(m.remove(name@).insert(name@, v) =~= m.insert(name@, v));
        }
    }

    /// The names in order.
    pub fn names(&self) -> (r: Vec<String>)
        requires
            self.wf(),
        ensures
            ordered(crate::text::contents(r@)),
            forall|k: Seq<char>| self@.contains_key(k) <==> #[trigger] crate::text::contents(
                r@,
            ).contains(k),
    {
        let mut r: Vec<String> = Vec::new();
        let mut i: usize = 0;
        while i < self.entries.len()
            invariant
                i <= self.entries@.len(),
                crate::text::contents(r@) == names_of(self.entries@).take(i as int),
            decreases self.entries@.len() - i,
        {
            let name = self.entries[i].0.as_str().to_owned();
            assert(names_of(self.entries@)[i as int] == name@);
            let ghost before = crate::text::contents(r@);
            r.push(name);
            assert(crate::text::contents(r@) =~= before.push(name@));
            i = i + 1;
            assert(crate::text::contents(r@) =~= names_of(self.entries@).take(i as int));
        }
        assert(crate::text::contents(r@) =~= names_of(self.entries@));
        r
    }
}

proof fn lemma_removed<V>(entries: Seq<(String, V)>, i: int, name: Seq<char>)
    requires
        ordered(names_of(entries)),
        0 <= i < entries.len(),
        entries[i].0@ == name,
    ensures
        ordered(names_of(entries.remove(i))),
        map_of(entries.remove(i)) == map_of(entries).remove(name),
{
    let after = entries.remove(i);
    let na = names_of(after);
    let nb = names_of(entries);
    assert forall|a: int, b: int| 0 <= a < b < na.len() implies text_less(
        #[trigger] na[a],
        #[trigger] na[b],
    ) by {
        let a0 = if a < i {
            a
        } else {
            a + 1
        };
        let b0 = if b < i {
            b
        } else {
            b + 1
        };
        assert(na[a] == nb[a0] && na[b] == nb[b0]);
        assert(text_less(nb[a0], nb[b0]));
    }
    assert forall|k: Seq<char>| #[trigger] map_of(after).dom().contains(k) implies map_of(
        entries,
    ).remove(name).dom().contains(k) && map_of(after)[k] == map_of(entries).remove(name)[k] by {
        let j = choose|j: int| 0 <= j < na.len() && na[j] == k;
        let j0 = if j < i {
            j
        } else {
            j + 1
        };
        assert(after[j] == entries[j0]);
        lemma_at(after, j);
        lemma_at(entries, j0);
        assert(nb[j0] == k && nb[i] == name);
        lemma_text_total(k, name);
        if j0 < i {
            assert(text_less(nb[j0], nb[i]));
        } else {
            assert(text_less(nb[i], nb[j0]));
        }
    }
    assert forall|k: Seq<char>| #[trigger]
        map_of(entries).remove(name).dom().contains(k) implies map_of(after).dom().contains(k) by {
        let j0 = choose|j: int| 0 <= j < nb.len() && nb[j] == k;
        let j = if j0 < i {
            j0
        } else {
            j0 - 1
        };
        assert(nb[i] == name);
        assert(after[j] == entries[j0]);
        assert(na[j] == k);
    }
    assert(map_of(after) =~= map_of(entries).remove(name));
}

proof fn lemma_inserted<V>(entries: Seq<(String, V)>, i: int, e: (String, V))
    requires
        ordered(names_of(entries)),
        0 <= i <= entries.len(),
        forall|k: int| 0 <= k < i ==> text_less(#[trigger] names_of(entries)[k], e.0@),
        forall|k: int| i <= k < entries.len() ==> text_less(e.0@, #[trigger] names_of(entries)[k]),
    ensures
        ordered(names_of(entries.insert(i, e))),
        map_of(entries.insert(i, e)) == map_of(entries).insert(e.0@, e.1),
{
    let after = entries.insert(i, e);
    let na = names_of(after);
    let nb = names_of(entries);
    let name = e.0@;
    assert(na[i] == name);
    assert forall|a: int, b: int| 0 <= a < b < na.len() implies text_less(
        #[trigger] na[a],
        #[trigger] na[b],
    ) by {
        let a0 = if a < i {
            a
        } else {
            a - 1
        };
        let b0 = if b < i {
            b
        } else {
            b - 1
        };
        if a != i {
            assert(na[a] == nb[a0]);
        }
        if b != i {
            assert(na[b] == nb[b0]);
        }
        if a != i && b != i {
            assert(text_less(nb[a0], nb[b0]));
        } else if a == i {
            assert(text_less(name, nb[b0]));
        } else {
            assert(text_less(nb[a0], name));
        }
    }
    lemma_at(after, i);
    let whole = map_of(entries).insert(name, e.1);
    assert forall|k: Seq<char>| #[trigger]
        map_of(after).dom().contains(k) && k != name implies whole.dom().contains(k) && map_of(
        after,
    )[k] == whole[k] by {
        let j = choose|j: int| 0 <= j < na.len() && na[j] == k;
        let j0 = if j < i {
            j
        } else {
            j - 1
        };
        assert(after[j] == entries[j0]);
        lemma_at(after, j);
        lemma_at(entries, j0);
    }
    assert forall|k: Seq<char>| #[trigger] whole.dom().contains(k) && k != name implies map_of(
        after,
    ).dom().contains(k) by {
        let j0 = choose|j: int| 0 <= j < nb.len() && nb[j] == k;
        let j = if j0 < i {
            j0
        } else {
            j0 + 1
        };
        assert(after[j] == entries[j0]);
        assert(na[j] == k);
    }
    assert(map_of(after) =~= map_of(entries).insert(name, e.1));
}

} // verus!
