//! The database-connection registry: a keyed map from a logical connection
//! name to a connection object, filled once at startup and only read after.
use vstd::prelude::*;

verus! {

/// Index of the first entry with this key, or -1.
pub open spec fn spec_find_key<C>(s: Seq<(Seq<char>, C)>, key: Seq<char>) -> int
    decreases s.len(),
{
    if s.len() == 0 {
        -1
    } else if s[0].0 == key {
        0
    } else {
        let r = spec_find_key(s.drop_first(), key);
        if r < 0 {
            -1
        } else {
            r + 1
        }
    }
}

/// No two entries share a key.
pub open spec fn spec_keys_unique<C>(s: Seq<(Seq<char>, C)>) -> bool {
    forall|i: int, j: int| 0 <= i < j < s.len() ==> s[i].0 != s[j].0
}

proof fn lemma_find_key_at<C>(s: Seq<(Seq<char>, C)>, key: Seq<char>, i: int)
    requires
        0 <= i < s.len(),
        s[i].0 == key,
        forall|j: int| 0 <= j < i ==> s[j].0 != key,
    ensures
        spec_find_key(s, key) == i,
    decreases i,
{
    if i > 0 {
        lemma_find_key_at(s.drop_first(), key, i - 1);
    }
}

proof fn lemma_find_key_absent<C>(s: Seq<(Seq<char>, C)>, key: Seq<char>)
    requires
        forall|j: int| 0 <= j < s.len() ==> s[j].0 != key,
    ensures
        spec_find_key(s, key) == -1,
    decreases s.len(),
{
    if s.len() > 0 {
        lemma_find_key_absent(s.drop_first(), key);
    }
}

/// The registry, generic over the connection object it hands out.
pub struct DatabaseConnections<C> {
    entries: Vec<(String, C)>,
}

impl<C> View for DatabaseConnections<C> {
    type V = Seq<(Seq<char>, C)>;

    closed spec fn view(&self) -> Seq<(Seq<char>, C)> {
        self.entries@.map_values(|e: (String, C)| (e.0@, e.1))
    }
}

impl<C> DatabaseConnections<C> {
    /// An empty registry.
    pub fn new() -> (r: DatabaseConnections<C>)
        ensures
            r@ =~= Seq::<(Seq<char>, C)>::empty(),
            spec_keys_unique(r@),
    {
        DatabaseConnections { entries: Vec::new() }
    }

    fn find_index(&self, key: &str) -> (r: Option<usize>)
        ensures
            match r {
                Some(i) => 0 <= i < self@.len() && spec_find_key(self@, key@) == i,
                None => spec_find_key(self@, key@) == -1,
            },
    {
        let n = self.entries.len();
        let mut i: usize = 0;
        while i < n
            invariant
                i <= n == self.entries@.len(),
                forall|j: int| 0 <= j < i ==> self@[j].0 != key@,
            decreases n - i,
        {
            if crate::text::str_eq(self.entries[i].0.as_str(), key) {
                proof {
                    lemma_find_key_at(self@, key@, i as int);
                }
                return Some(i);
            }
            i = i + 1;
        }
        proof {
            lemma_find_key_absent(self@, key@);
        }
        None
    }

    /// Stores the connection under the key, replacing what the key held.
    pub fn register(&mut self, key: String, value: C)
        ensures
            final(self)@ == (if spec_find_key(old(self)@, key@) >= 0 {
                old(self)@.update(spec_find_key(old(self)@, key@), (key@, value))
            } else {
                old(self)@.push((key@, value))
            }),
            spec_keys_unique(old(self)@) ==> spec_keys_unique(final(self)@),
    {
        match self.find_index(key.as_str()) {
            Some(i) => {
                proof {
                    lemma_find_key_found(old(self)@, key@, i as int);
                }
                self.entries.remove(i);
                self.entries.insert(i, (key, value));
                assert(final(self)@ =~= old(self)@.update(
                    spec_find_key(old(self)@, key@),
                    (key@, value),
                ));
                assert(forall|j: int|
                    0 <= j < final(self)@.len() ==> final(self)@[j].0 == old(self)@[j].0);
            },
            None => {
                proof {
                    lemma_find_key_absent_all(old(self)@, key@);
                }
                self.entries.push((key, value));
                assert(final(self)@ =~= old(self)@.push((key@, value)));
            },
        }
    }

    /// The connection registered under the key, if any.
    pub fn find(&self, key: &str) -> (r: Option<&C>)
        ensures
            r is Some <==> spec_find_key(self@, key@) >= 0,
            r is Some ==> *r.unwrap() == self@[spec_find_key(self@, key@)].1,
    {
        match self.find_index(key) {
            Some(i) => Some(&self.entries[i].1),
            None => None,
        }
    }

    /// How many connections are registered.
    pub fn len(&self) -> (r: usize)
        ensures
            r == self@.len(),
    {
        self.entries.len()
    }
}

proof fn lemma_find_key_found<C>(s: Seq<(Seq<char>, C)>, key: Seq<char>, i: int)
    requires
        0 <= i < s.len(),
        spec_find_key(s, key) == i,
    ensures
        s[i].0 == key,
    decreases i,
{
    if i > 0 {
        lemma_find_key_found(s.drop_first(), key, i - 1);
    }
}

proof fn lemma_find_key_absent_all<C>(s: Seq<(Seq<char>, C)>, key: Seq<char>)
    requires
        spec_find_key(s, key) == -1,
    ensures
        forall|j: int| 0 <= j < s.len() ==> s[j].0 != key,
    decreases s.len(),
{
    if s.len() > 0 {
        lemma_find_key_absent_all(s.drop_first(), key);
        assert(forall|j: int|
            1 <= j < s.len() ==> s[j] == s.drop_first()[j - 1] && s.drop_first()[j - 1].0 != key);
    }
}

} // verus!
