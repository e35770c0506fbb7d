//! A map from names to values that keeps its entries in dictionary order.

use vstd::prelude::*;
use crate::text;

verus! {

/// A map from names to values.
#[derive(Debug)]
pub struct NameMap<V> {
    entries: Vec<(String, V)>,
}

/// `a` comes before `b` in dictionary order.
pub open spec fn before(a: Seq<char>, b: Seq<char>) -> bool {
    text::lex_le(a, b) && a != b
}

/// In dictionary order, without repetition.
pub open spec fn strictly_ascends(s: Seq<Seq<char>>) -> bool {
    forall|i: int, j: int| 0 <= i < j < s.len() ==> before(#[trigger] s[i], #[trigger] s[j])
}

/// The names of the entries.
pub open spec fn names<V>(entries: Seq<(String, V)>) -> Seq<Seq<char>> {
    Seq::new(entries.len(), |i: int| entries[i].0@)
}

/// Where a name stands among the names.
pub open spec fn index_of(s: Seq<Seq<char>>, name: Seq<char>) -> int {
    choose|i: int| 0 <= i < s.len() && s[i] == name
}

impl<V> NameMap<V> {
    #[verifier::type_invariant]
    spec fn inv(self) -> bool {
        strictly_ascends(names(self.entries@))
    }
}

impl<V> View for NameMap<V> {
    type V = Map<Seq<char>, V>;

    closed spec fn view(&self) -> Map<Seq<char>, V> {
        let ns = names(self.entries@);
        Map::new(|k: Seq<char>| ns.contains(k), |k: Seq<char>| self.entries@[index_of(ns, k)].1)
    }
}

proof fn lemma_index_unique(s: Seq<Seq<char>>, i: int)
    requires
        strictly_ascends(s),
        0 <= i < s.len(),
    ensures
        index_of(s, s[i]) == i,
        s.contains(s[i]),
{
    let j = index_of(s, s[i]);
    assert(0 <= j < s.len() && s[j] == s[i]);
    if j < i {
        assert(before(s[j], s[i]));
    } else if i < j {
        assert(before(s[i], s[j]));
    }
}

impl<V> NameMap<V> {
    pub fn new() -> (r: Self)
        ensures
            r@ == Map::<Seq<char>, V>::empty(),
    {
        let r = NameMap { entries: Vec::new() };
        assert(r@ =~= Map::<Seq<char>, V>::empty());
        r
    }

    /// The number of entries that come before `name`.
    fn position(entries: &Vec<(String, V)>, name: &str) -> (r: usize)
        requires
            strictly_ascends(names(entries@)),
        ensures
            r <= entries@.len(),
            forall|j: int| 0 <= j < r ==> before(#[trigger] names(entries@)[j], name@),
            forall|j: int| r <= j < entries@.len() ==> text::lex_le(
                name@,
                #[trigger] names(entries@)[j],
            ),
    {
        let ghost ns = names(entries@);
        let mut low: usize = 0;
        let mut high: usize = entries.len();
        while low < high
            invariant
                low <= high <= entries@.len(),
                ns == names(entries@),
                strictly_ascends(ns),
                forall|j: int| 0 <= j < low ==> before(#[trigger] ns[j], name@),
                forall|j: int| high <= j < ns.len() ==> text::lex_le(name@, #[trigger] ns[j]),
            decreases high - low,
        {
            let mid: usize = low + (high - low) / 2;
            assert(ns[mid as int] == entries@[mid as int].0@);
            if text::str_le(name, entries[mid].0.as_str()) {
                proof {
                    assert forall|j: int| mid <= j < ns.len() implies text::lex_le(
                        name@,
                        #[trigger] ns[j],
                    ) by {
                        if j > mid {
                            assert(before(ns[mid as int], ns[j]));
                            text::lemma_lex_transitive(name@, ns[mid as int], ns[j]);
                        }
                    }
                }
                high = mid;
            } else {
                proof {
                    text::lemma_lex_total(name@, ns[mid as int]);
                    text::lemma_lex_reflexive(name@);
                    assert forall|j: int| 0 <= j < mid + 1 implies before(
                        #[trigger] ns[j],
                        name@,
                    ) by {
                        if j < mid {
                            assert(before(ns[j], ns[mid as int]));
                            text::lemma_lex_transitive(ns[j], ns[mid as int], name@);
                            if ns[j] == name@ {
                                text::lemma_lex_antisymmetric(ns[j], ns[mid as int]);
                            }
                        }
                    }
                }
                low = mid + 1;
            }
        }
        low
    }

    /// The value of `name`.
    pub fn get(&self, name: &str) -> (r: Option<&V>)
        ensures
            match r {
                Some(v) => self@.dom().contains(name@) && *v == self@[name@],
                None => !self@.dom().contains(name@),
            },
    {
        proof {
            use_type_invariant(self);
        }
        let ghost ns = names(self.entries@);
        let k: usize = Self::position(&self.entries, name);
        if k < self.entries.len() && text::eq(self.entries[k].0.as_str(), name) {
            proof {
                assert(ns[k as int] == name@);
                lemma_index_unique(ns, k as int);
            }
            Some(&self.entries[k].1)
        } else {
            proof {
                if ns.contains(name@) {
                    let j = index_of(ns, name@);
                    if j < k {
                        assert(before(ns[j], name@));
                    } else if j > k {
                        assert(before(ns[k as int], ns[j]));
                        assert(text::lex_le(name@, ns[k as int]));
                        text::lemma_lex_antisymmetric(name@, ns[k as int]);
                    }
                }
            }
            None
        }
    }

    pub fn contains_key(&self, name: &str) -> (r: bool)
        ensures
            r == self@.dom().contains(name@),
    {
        self.get(name).is_some()
    }

    /// Give `name` a value, in place of the one that it has.
    pub fn insert(&mut self, name: String, value: V)
        ensures
            final(self)@ == old(self)@.insert(name@, value),
    {
        proof {
            use_type_invariant(&*self);
        }
        let mut entries: Vec<(String, V)> = Vec::new();
        std::mem::swap(&mut entries, &mut self.entries);
        let ghost old_entries = entries@;
        let ghost ns = names(entries@);
        let ghost key = name@;
        let ghost val = value;
        let k: usize = Self::position(&entries, name.as_str());
        if k < entries.len() && text::eq(entries[k].0.as_str(), name.as_str()) {
            assert(ns[k as int] == key);
            entries[k] = (name, value);
            proof {
                assert(names(entries@) =~= ns);
                lemma_update(old_entries, entries@, key, val, k as int);
            }
        } else {
            proof {
                if k < ns.len() {
                    assert(ns[k as int] == entries@[k as int].0@);
                }
                assert forall|j: int| k <= j < ns.len() implies before(key, #[trigger] ns[j]) by {
                    if j > k && ns[j] == key {
                        assert(before(ns[k as int], ns[j]));
                        text::lemma_lex_antisymmetric(ns[k as int], key);
                    }
                }
            }
            entries.insert(k, (name, value));
            proof {
                assert(names(entries@) =~= ns.insert(k as int, key));
                lemma_insert(old_entries, entries@, key, val, k as int);
            }
        }
        self.entries = entries;
        assert(self@ =~= old(self)@.insert(key, val));
    }

    pub fn len(&self) -> (r: usize)
        ensures
            self@.dom().finite(),
            r == self@.dom().len(),
    {
        proof {
            use_type_invariant(self);
            let ns = names(self.entries@);
            assert forall|i: int, j: int| 0 <= i < ns.len() && 0 <= j < ns.len() && i != j
                implies ns[i] != ns[j] by {
                if i < j {
                    assert(before(ns[i], ns[j]));
                } else {
                    assert(before(ns[j], ns[i]));
                }
            }
            ns.unique_seq_to_set();
            assert(self@.dom() =~= ns.to_set());
        }
        self.entries.len()
    }

    pub fn is_empty(&self) -> (r: bool)
        ensures
            r == (forall|k: Seq<char>| !self@.dom().contains(k)),
    {
        proof {
            if self.entries@.len() > 0 {
                let ns = names(self.entries@);
                assert(ns.contains(ns[0]));
                assert(self@.dom().contains(ns[0]));
            }
        }
        self.entries.len() == 0
    }

    /// The names, in dictionary order.
    pub fn keys<'a>(&'a self) -> (r: Vec<&'a str>)
        ensures
            strictly_ascends(text::strs(r@)),
            forall|k: Seq<char>| #[trigger]
                text::strs(r@).contains(k) <==> self@.dom().contains(k),
    {
        proof {
            use_type_invariant(self);
        }
        let ghost ns = names(self.entries@);
        let mut out: Vec<&'a str> = Vec::new();
        let mut i: usize = 0;
        while i < self.entries.len()
            invariant
                i <= self.entries@.len(),
                ns == names(self.entries@),
                text::strs(out@) =~= ns.take(i as int),
            decreases self.entries@.len() - i,
        {
            let ghost so_far = text::strs(out@);
            out.push(self.entries[i].0.as_str());
            assert(text::strs(out@) =~= so_far.push(ns[i as int]));
            i += 1;
        }
        assert(text::strs(out@) =~= ns);
        out
    }
}

proof fn lemma_update<V>(
    a: Seq<(String, V)>,
    b: Seq<(String, V)>,
    key: Seq<char>,
    val: V,
    k: int,
)
    requires
        strictly_ascends(names(a)),
        0 <= k < a.len(),
        names(a)[k] == key,
        b.len() == a.len(),
        names(b) == names(a),
        b[k].1 == val,
        forall|i: int| 0 <= i < a.len() && i != k ==> #[trigger] b[i] == a[i],
    ensures
        forall|x: Seq<char>| names(b).contains(x) <==> x == key || names(a).contains(x),
        b[index_of(names(b), key)].1 == val,
        forall|x: Seq<char>|
            x != key && #[trigger] names(a).contains(x) ==> b[index_of(names(b), x)].1
                == a[index_of(names(a), x)].1,
{
    lemma_index_unique(names(a), k);
    assert forall|x: Seq<char>| x != key && #[trigger] names(a).contains(x) implies b[index_of(
        names(b),
        x,
    )].1 == a[index_of(names(a), x)].1 by {
        let i = index_of(names(a), x);
        assert(0 <= i < a.len() && names(a)[i] == x);
        assert(b[i] == a[i]);
    }
}

proof fn lemma_insert<V>(
    a: Seq<(String, V)>,
    b: Seq<(String, V)>,
    key: Seq<char>,
    val: V,
    k: int,
)
    requires
        strictly_ascends(names(a)),
        0 <= k <= a.len(),
        names(b) == names(a).insert(k, key),
        b.len() == a.len() + 1,
        b[k].1 == val,
        forall|i: int| 0 <= i < k ==> #[trigger] b[i] == a[i],
        forall|i: int| k <= i < a.len() ==> b[i + 1] == #[trigger] a[i],
        forall|j: int| 0 <= j < k ==> before(#[trigger] names(a)[j], key),
        forall|j: int| k <= j < a.len() ==> before(key, #[trigger] names(a)[j]),
    ensures
        strictly_ascends(names(b)),
        forall|x: Seq<char>| names(b).contains(x) <==> x == key || names(a).contains(x),
        b[index_of(names(b), key)].1 == val,
        forall|x: Seq<char>|
            x != key && #[trigger] names(a).contains(x) ==> b[index_of(names(b), x)].1
                == a[index_of(names(a), x)].1,
{
    let na = names(a);
    let nb = names(b);
    assert forall|i: int, j: int| 0 <= i < j < nb.len() implies before(
        #[trigger] nb[i],
        #[trigger] nb[j],
    ) by {
        if i == k {
            assert(nb[j] == na[j - 1]);
        } else if j == k {
            assert(nb[i] == na[i]);
        } else {
            let i0 = if i < k {
                i
            } else {
                i - 1
            };
            let j0 = if j < k {
                j
            } else {
                j - 1
            };
            assert(before(na[i0], na[j0]));
        }
    }
    assert(nb[k] == key);
    lemma_index_unique(nb, k);
    assert forall|x: Seq<char>| nb.contains(x) <==> x == key || na.contains(x) by {
        if na.contains(x) {
            let i = index_of(na, x);
            let i0 = if i < k {
                i
            } else {
                i + 1
            };
            assert(nb[i0] == x);
        }
        if nb.contains(x) && x != key {
            let i = index_of(nb, x);
            let i0 = if i < k {
                i
            } else {
                i - 1
            };
            assert(na[i0] == x);
        }
    }
    assert forall|x: Seq<char>| x != key && #[trigger] na.contains(x) implies b[index_of(nb, x)].1
        == a[index_of(na, x)].1 by {
        let i = index_of(na, x);
        assert(0 <= i < na.len() && na[i] == x);
        let i0 = if i < k {
            i
        } else {
            i + 1
        };
        assert(nb[i0] == x);
        lemma_index_unique(nb, i0);
        if i >= k {
            assert(b[i + 1] == a[i]);
        }
    }
}

} // verus!
