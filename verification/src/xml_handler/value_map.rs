//! The value-replacement map: symbol names to the text substituted for them.
use vstd::prelude::*;
use vstd::hash_map::StringHashMap;

verus! {

/// A map from symbol names to their replacement text (the keys and values of
/// the script-generation templates).  Besides the hash map it keeps its keys
/// in the order they were first stored, so that the map can be copied.
pub struct ValueMap {
    /// The map, and its keys in the order they were first stored.
    inner: (StringHashMap<String>, Vec<String>),
}

impl View for ValueMap {
    type V = Map<Seq<char>, Seq<char>>;

    closed spec fn view(&self) -> Map<Seq<char>, Seq<char>> {
        self.inner.0@.map_values(|v: String| v@)
    }
}

impl ValueMap {
    #[verifier::type_invariant]
    spec fn inv(self) -> bool {
        forall|k: Seq<char>|
            self.inner.0@.contains_key(k) <==> exists|i: int|
                0 <= i < self.inner.1@.len() && (#[trigger] self.inner.1@[i])@ == k
    }

    /// An empty map.
    pub fn new() -> (r: Self)
        ensures
            r@ == Map::<Seq<char>, Seq<char>>::empty(),
    {
        let r = ValueMap { inner: (StringHashMap::new(), Vec::new()) };
        assert(r@ =~= Map::<Seq<char>, Seq<char>>::empty());
        r
    }

    /// The value stored for `key`, if any.
    pub fn get(&self, key: &String) -> (r: Option<String>)
        ensures
            r is Some <==> self@.contains_key(key@),
            r matches Some(v) ==> v@ == self@[key@],
    {
        match self.inner.0.get(key.as_str()) {
            Some(v) => Some(v.clone()),
            None => None,
        }
    }

    /// Stores `value` under `key`, replacing any earlier value.
    pub fn insert(&mut self, key: String, value: String)
        ensures
            final(self)@ == old(self)@.insert(key@, value@),
    {
        proof {
            use_type_invariant(&*self);
        }
        let ghost k = key@;
        let ghost v = value@;
        let mut inner = (StringHashMap::new(), Vec::new());
        std::mem::swap(&mut self.inner, &mut inner);
        let (mut map, mut keys) = inner;
        let ghost old_keys = keys@;
        if !map.contains_key(key.as_str()) {
            keys.push(key.clone());
        }
        map.insert(key, value);
        proof {
            assert forall|q: Seq<char>|
                map@.contains_key(q) <==> exists|i: int|
                    0 <= i < keys@.len() && (#[trigger] keys@[i])@ == q by {
                if q == k {
                    if old_keys.len() == keys@.len() {
                        let i = choose|i: int| 0 <= i < old_keys.len() && (#[trigger] old_keys[i])@ == q;
                        assert(keys@[i] == old_keys[i]);
                    } else {
                        assert(keys@[old_keys.len() as int]@ == q);
                    }
                } else {
                    if map@.contains_key(q) {
                        let i = choose|i: int| 0 <= i < old_keys.len() && (#[trigger] old_keys[i])@ == q;
                        assert(keys@[i] == old_keys[i]);
                    }
                    if exists|i: int| 0 <= i < keys@.len() && (#[trigger] keys@[i])@ == q {
                        let i = choose|i: int| 0 <= i < keys@.len() && (#[trigger] keys@[i])@ == q;
                        if i < old_keys.len() {
                            assert(keys@[i] == old_keys[i]);
                        }
                    }
                }
            }
        }
        let ghost mv = map@;
        let ghost kv = keys@;
        assert(forall|q: Seq<char>| mv.contains_key(q) <==> exists|i: int| 0 <= i < kv.len() && (#[trigger] kv[i])@ == q);
        let t = (map, keys);
        assert(t.0@ == mv);
        assert(t.1@ == kv);
        assert(forall|q: Seq<char>|
            t.0@.contains_key(q) <==> exists|i: int| 0 <= i < t.1@.len() && (#[trigger] t.1@[i])@ == q);
        self.inner = t;
        assert(self@ =~= old(self)@.insert(k, v));
    }

    /// A copy of the map.
    pub fn clone_map(&self) -> (r: Self)
        ensures
            r@ == self@,
    {
        proof {
            use_type_invariant(self);
        }
        let mut r = ValueMap::new();
        let mut i: usize = 0;
        while i < self.inner.1.len()
            invariant
                i <= self.inner.1@.len(),
                forall|k: Seq<char>|
                    self.inner.0@.contains_key(k) <==> exists|j: int|
                        0 <= j < self.inner.1@.len() && (#[trigger] self.inner.1@[j])@ == k,
                forall|k: Seq<char>|
                    r@.contains_key(k) <==> exists|j: int| 0 <= j < i && (#[trigger] self.inner.1@[j])@ == k,
                forall|k: Seq<char>| r@.contains_key(k) ==> r@[k] == self@[k],
            decreases self.inner.1.len() - i,
        {
            let key = &self.inner.1[i];
            assert(self.inner.0@.contains_key(key@));
            match self.inner.0.get(key.as_str()) {
                Some(v) => {
                    r.insert(key.clone(), v.clone());
                },
                None => {},
            }
            i = i + 1;
        }
        assert(r@ =~= self@);
        r
    }
}

} // verus!
