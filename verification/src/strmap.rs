//! A string-keyed table with insertion-order iteration and last-write-wins
//! updates, used for the plugin and port tables.
use crate::text::str_eq;
use vstd::prelude::*;

verus! {

/// The value at the first entry whose key is `k`, if any.
pub open spec fn assoc_get<T>(entries: Seq<(Seq<char>, T)>, k: Seq<char>) -> Option<T>
    decreases entries.len(),
{
    if entries.len() == 0 {
        None
    } else if entries[0].0 == k {
        Some(entries[0].1)
    } else {
        assoc_get(entries.drop_first(), k)
    }
}

/// Index, at or after `i`, of the first entry whose key is `k`.
pub open spec fn index_of_key_from<T>(entries: Seq<(Seq<char>, T)>, k: Seq<char>, i: int) -> Option<
    int,
>
    decreases entries.len() - i,
{
    if i < 0 || i >= entries.len() {
        None
    } else if entries[i].0 == k {
        Some(i)
    } else {
        index_of_key_from(entries, k, i + 1)
    }
}

/// Index of the first entry whose key is `k`.
pub open spec fn index_of_key<T>(entries: Seq<(Seq<char>, T)>, k: Seq<char>) -> Option<int> {
    index_of_key_from(entries, k, 0)
}

/// The table after a write: an existing key keeps its place and takes the
/// new value, a new key is appended.
pub open spec fn assoc_put<T>(entries: Seq<(Seq<char>, T)>, k: Seq<char>, v: T) -> Seq<
    (Seq<char>, T),
> {
    match index_of_key(entries, k) {
        None => entries.push((k, v)),
        Some(i) => entries.update(i, (k, v)),
    }
}

/// `assoc_get` agrees with `index_of_key`: both find the first entry.
pub proof fn lemma_assoc_get_index<T>(entries: Seq<(Seq<char>, T)>, k: Seq<char>, i: int)
    requires
        0 <= i <= entries.len(),
        forall|j: int| 0 <= j < i ==> entries[j].0 != k,
    ensures
        match index_of_key_from(entries, k, i) {
            Some(j) => 0 <= j < entries.len() && entries[j].0 == k && assoc_get(entries, k)
                == Some(entries[j].1),
            None => assoc_get(entries, k) is None,
        },
    decreases entries.len() - i,
{
    if i < entries.len() && entries[i].0 != k {
        lemma_assoc_get_index(entries, k, i + 1);
    }
    if i >= entries.len() || entries[i].0 == k {
        lemma_assoc_get_prefix(entries, k, if i < entries.len() {
            Some(i)
        } else {
            None
        });
    }
}

/// Helper: `assoc_get` over a sequence whose first `i` keys differ from `k`.
proof fn lemma_assoc_get_prefix<T>(entries: Seq<(Seq<char>, T)>, k: Seq<char>, hit: Option<int>)
    requires
        match hit {
            Some(i) => 0 <= i < entries.len() && entries[i].0 == k && forall|j: int|
                0 <= j < i ==> entries[j].0 != k,
            None => forall|j: int| 0 <= j < entries.len() ==> entries[j].0 != k,
        },
    ensures
        match hit {
            Some(i) => assoc_get(entries, k) == Some(entries[i].1),
            None => assoc_get(entries, k) is None,
        },
    decreases entries.len(),
{
    if entries.len() > 0 && entries[0].0 != k {
        match hit {
            Some(i) => {
                assert(forall|j: int|
                    0 <= j < i - 1 ==> entries.drop_first()[j] == entries[j + 1]);
                lemma_assoc_get_prefix(entries.drop_first(), k, Some(i - 1));
            },
            None => {
                assert(forall|j: int|
                    0 <= j < entries.len() - 1 ==> entries.drop_first()[j] == entries[j + 1]);
                lemma_assoc_get_prefix(entries.drop_first(), k, None);
            },
        }
    }
}

/// A string-keyed table; writes overwrite in place, reads return the first
/// (and only) entry for a key, iteration follows insertion order.
#[derive(Debug)]
pub struct StrMap<T> {
    entries: Vec<(String, T)>,
}

impl<T: DeepView> View for StrMap<T> {
    type V = Seq<(Seq<char>, T::V)>;

    closed spec fn view(&self) -> Seq<(Seq<char>, T::V)> {
        Seq::new(self.entries@.len(), |i: int| (self.entries@[i].0@, self.entries@[i].1.deep_view()))
    }
}

impl<T: DeepView> DeepView for StrMap<T> {
    type V = Seq<(Seq<char>, T::V)>;

    closed spec fn deep_view(&self) -> Seq<(Seq<char>, T::V)> {
        self.view()
    }
}

impl<T: DeepView> StrMap<T> {
    /// An empty table.
    pub fn new() -> (r: Self)
        ensures
            r@ == Seq::<(Seq<char>, T::V)>::empty(),
    {
        let r = StrMap { entries: Vec::new() };
        proof {
            assert(r@ =~= Seq::<(Seq<char>, T::V)>::empty());
        }
        r
    }

    /// Number of entries.
    pub fn len(&self) -> (n: usize)
        ensures
            n == self@.len(),
    {
        self.entries.len()
    }

    /// The key of the entry at position `i`.
    pub fn key_at(&self, i: usize) -> (k: &String)
        requires
            i < self@.len(),
        ensures
            k@ == self@[i as int].0,
    {
        &self.entries[i].0
    }

    /// The value of the entry at position `i`.
    pub fn val_at(&self, i: usize) -> (v: &T)
        requires
            i < self@.len(),
        ensures
            v.deep_view() == self@[i as int].1,
    {
        &self.entries[i].1
    }

    /// Index of the entry holding key `k`, if any.
    fn index_of(&self, k: &str) -> (r: Option<usize>)
        ensures
            match r {
                Some(i) => index_of_key(self@, k@) == Some(i as int),
                None => index_of_key(self@, k@) is None,
            },
    {
        let n = self.entries.len();
        let mut i: usize = 0;
        while i < n
            invariant
                n == self@.len(),
                0 <= i <= n,
                index_of_key(self@, k@) == index_of_key_from(self@, k@, i as int),
            decreases n - i,
        {
            if str_eq(self.entries[i].0.as_str(), k) {
                return Some(i);
            }
            i += 1;
        }
        None
    }

    /// Writes `v` under `k`: overwrites in place if the key exists, appends
    /// otherwise.
    pub fn insert(&mut self, k: String, v: T)
        ensures
            final(self)@ == assoc_put(old(self)@, k@, v.deep_view()),
    {
        let ghost before = self@;
        proof {
            lemma_assoc_get_index(self@, k@, 0);
        }
        match self.index_of(k.as_str()) {
            Some(i) => {
                self.entries.remove(i);
                self.entries.insert(i, (k, v));
                proof {
                    assert(self@ =~= before.update(
                        index_of_key(before, k@).unwrap(),
                        (k@, self.entries@[i as int].1.deep_view()),
                    ));
                }
            },
            None => {
                self.entries.push((k, v));
                proof {
                    let n = self.entries@.len() - 1;
                    assert(self@ =~= before.push((k@, self.entries@[n].1.deep_view())));
                }
            },
        }
    }

    /// The value stored under `k`, if any.
    pub fn get(&self, k: &str) -> (r: Option<&T>)
        ensures
            match r {
                Some(v) => assoc_get(self@, k@) == Some(v.deep_view()),
                None => assoc_get(self@, k@) is None,
            },
    {
        proof {
            lemma_assoc_get_index(self@, k@, 0);
        }
        match self.index_of(k) {
            Some(i) => Some(&self.entries[i].1),
            None => None,
        }
    }

    /// Whether any entry holds key `k`.
    pub fn contains_key(&self, k: &str) -> (b: bool)
        ensures
            b == (assoc_get(self@, k@) is Some),
    {
        proof {
            lemma_assoc_get_index(self@, k@, 0);
        }
        self.index_of(k).is_some()
    }
}

} // verus!
