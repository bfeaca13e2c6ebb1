use vstd::prelude::*;

verus! {

/// An association map from URL indices to the vector of values collected
/// under each index, with the keys kept in insertion order.
pub struct VecMap<V> {
    keys: Vec<usize>,
    vals: Vec<Vec<V>>,
}

proof fn lemma_index_of_unique(s: Seq<usize>, j: int)
    requires
        s.no_duplicates(),
        0 <= j < s.len(),
    ensures
        s.index_of(s[j]) == j,
{
    assert(s.contains(s[j]));
    let w = s.index_of(s[j]);
    if w != j {
        assert(s[w] != s[j]);
    }
}

impl<V> VecMap<V> {
    /// Well-formed: one value vector per key, and no key held twice.
    pub closed spec fn wf(self) -> bool {
        self.keys@.len() == self.vals@.len() && self.keys@.no_duplicates()
    }

    /// The keys, in insertion order.
    pub closed spec fn spec_keys(self) -> Seq<usize> {
        self.keys@
    }

    /// The values stored under `key`; meaningful when `key` is held.
    pub closed spec fn spec_values(self, key: usize) -> Seq<V> {
        self.vals@[self.keys@.index_of(key)]@
    }

    /// An empty map.
    pub fn new() -> (m: VecMap<V>)
        ensures
            m.wf(),
            m.spec_keys() == Seq::<usize>::empty(),
    {
        let m = VecMap { keys: Vec::new(), vals: Vec::new() };
        proof {
            assert(m.keys@ =~= Seq::<usize>::empty());
        }
        m
    }

    /// How many distinct keys are held.
    pub fn len(&self) -> (n: usize)
        ensures
            n == self.spec_keys().len(),
    {
        self.keys.len()
    }

    /// Whether `key` is held.
    pub fn contains_key(&self, key: usize) -> (r: bool)
        ensures
            r == self.spec_keys().contains(key),
    {
        let n = self.keys.len();
        let mut j: usize = 0;
        while j < n && self.keys[j] != key
            invariant
                n == self.keys@.len(),
                0 <= j <= n,
                forall|jj: int| 0 <= jj < j ==> self.keys@[jj] != key,
            decreases n - j,
        {
            j = j + 1;
        }
        if j < n {
            proof {
                assert(self.keys@[j as int] == key);
            }
            true
        } else {
            proof {
                if self.keys@.contains(key) {
                    let w = choose|w: int| 0 <= w < n && self.keys@[w] == key;
                    assert(false);
                }
            }
            false
        }
    }

    /// Read access to the values stored under `key`.
    pub fn get(&self, key: usize) -> (r: Option<&Vec<V>>)
        requires
            self.wf(),
        ensures
            self.spec_keys().contains(key) ==> (r matches Some(v) && v@ == self.spec_values(key)),
            !self.spec_keys().contains(key) ==> r is None,
    {
        let n = self.keys.len();
        let mut j: usize = 0;
        while j < n && self.keys[j] != key
            invariant
                n == self.keys@.len(),
                0 <= j <= n,
                forall|jj: int| 0 <= jj < j ==> self.keys@[jj] != key,
            decreases n - j,
        {
            j = j + 1;
        }
        if j < n {
            proof {
                assert(self.keys@[j as int] == key);
                assert(self.keys@.contains(key));
                lemma_index_of_unique(self.keys@, j as int);
            }
            Some(&self.vals[j])
        } else {
            proof {
                if self.keys@.contains(key) {
                    let w = choose|w: int| 0 <= w < n && self.keys@[w] == key;
                    assert(false);
                }
            }
            None
        }
    }
}

/// Append `value` to the vector that `map` holds under `key`: push onto the
/// existing vector when the key is already held, or store a new one-element
/// vector for a key seen for the first time, keeping that key last.
pub fn add_to_vector_map<V>(map: VecMap<V>, key: usize, value: V) -> (r: VecMap<V>)
    requires
        map.wf(),
    ensures
        r.wf(),
        map.spec_keys().contains(key) ==> r.spec_keys() == map.spec_keys(),
        !map.spec_keys().contains(key) ==> r.spec_keys() == map.spec_keys().push(key),
        map.spec_keys().contains(key) ==> r.spec_values(key) == map.spec_values(key).push(value),
        !map.spec_keys().contains(key) ==> r.spec_values(key) == seq![value],
        forall|k: usize|
            map.spec_keys().contains(k) && k != key ==> r.spec_values(k) == map.spec_values(k),
{
    let mut m = map;
    let ghost keys0 = map.keys@;
    let ghost vals0 = map.vals@;
    let n = m.keys.len();
    let mut j: usize = 0;
    while j < n && m.keys[j] != key
        invariant
            m == map,
            n == m.keys@.len(),
            0 <= j <= n,
            forall|jj: int| 0 <= jj < j ==> m.keys@[jj] != key,
        decreases n - j,
    {
        j = j + 1;
    }
    if j < n {
        proof {
            assert(keys0[j as int] == key);
            assert(keys0.contains(key));
            lemma_index_of_unique(keys0, j as int);
        }
        let mut v = m.vals.remove(j);
        v.push(value);
        m.vals.insert(j, v);
        proof {
            assert(m.keys@ == keys0);
            assert(m.vals@ =~= vals0.update(j as int, m.vals@[j as int]));
            assert(m.vals@[j as int]@ == vals0[j as int]@.push(value));
            assert forall|k: usize| keys0.contains(k) && k != key implies m.spec_values(k)
                == map.spec_values(k) by {
                let w = choose|w: int| 0 <= w < keys0.len() && keys0[w] == k;
                lemma_index_of_unique(keys0, w);
                assert(w != j);
            }
        }
        m
    } else {
        proof {
            if keys0.contains(key) {
                let w = choose|w: int| 0 <= w < n && keys0[w] == key;
                assert(false);
            }
        }
        m.keys.push(key);
        let mut v: Vec<V> = Vec::new();
        v.push(value);
        m.vals.push(v);
        proof {
            let keys1 = m.keys@;
            assert(keys1 == keys0.push(key));
            assert(keys1.no_duplicates()) by {
                assert(forall|i: int| 0 <= i < keys0.len() ==> keys1[i] == keys0[i]);
                assert(keys1[keys0.len() as int] == key);
            }
            lemma_index_of_unique(keys1, keys0.len() as int);
            assert(m.spec_values(key) =~= seq![value]);
            assert forall|k: usize| keys0.contains(k) && k != key implies m.spec_values(k)
                == map.spec_values(k) by {
                let w = choose|w: int| 0 <= w < keys0.len() && keys0[w] == k;
                assert(keys1[w] == k);
                lemma_index_of_unique(keys1, w);
                lemma_index_of_unique(keys0, w);
            }
        }
        m
    }
}

} // verus!
