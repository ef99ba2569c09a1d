//! The ordered header list: insertion order is kept on first write, and each
//! mutator has its own replacement discipline.
use vstd::prelude::*;

use crate::text::{spec_lower, spec_trim_start, str_eq, to_ascii_lower, trim_start};

verus! {

/// One header line: a name and a value.
#[derive(Debug)]
pub struct HttpHeader {
    pub name: String,
    pub value: String,
}

impl View for HttpHeader {
    type V = (Seq<char>, Seq<char>);

    open spec fn view(&self) -> Self::V {
        (self.name@, self.value@)
    }
}

/// An ordered list of headers.
#[derive(Debug)]
pub struct HttpHeaders {
    contents: Vec<HttpHeader>,
}

impl View for HttpHeaders {
    type V = Seq<(Seq<char>, Seq<char>)>;

    closed spec fn view(&self) -> Self::V {
        self.contents@.map_values(|h: HttpHeader| h@)
    }
}

/// Index of the first entry with this exact name, or -1.
pub open spec fn spec_find_name(s: Seq<(Seq<char>, Seq<char>)>, name: Seq<char>) -> int
    decreases s.len(),
{
    if s.len() == 0 {
        -1
    } else if s[0].0 == name {
        0
    } else {
        let r = spec_find_name(s.drop_first(), name);
        if r < 0 {
            -1
        } else {
            r + 1
        }
    }
}

pub open spec fn spec_has_name(s: Seq<(Seq<char>, Seq<char>)>, name: Seq<char>) -> bool {
    spec_find_name(s, name) >= 0
}

/// `set`: replace the value of the first entry with this exact name, or append.
pub open spec fn spec_set(
    s: Seq<(Seq<char>, Seq<char>)>,
    name: Seq<char>,
    value: Seq<char>,
) -> Seq<(Seq<char>, Seq<char>)> {
    let i = spec_find_name(s, name);
    if i >= 0 {
        s.update(i, (name, value))
    } else {
        s.push((name, value))
    }
}

/// `set_normal`: lower-case the name and trim leading blanks off the value,
/// then `set`.
pub open spec fn spec_set_normal(
    s: Seq<(Seq<char>, Seq<char>)>,
    name: Seq<char>,
    value: Seq<char>,
) -> Seq<(Seq<char>, Seq<char>)> {
    spec_set(s, spec_lower(name), spec_trim_start(value))
}

/// `set_default`: append only if no entry with this exact name exists.
pub open spec fn spec_set_default(
    s: Seq<(Seq<char>, Seq<char>)>,
    name: Seq<char>,
    value: Seq<char>,
) -> Seq<(Seq<char>, Seq<char>)> {
    if spec_has_name(s, name) {
        s
    } else {
        s.push((name, value))
    }
}

/// `remove`: drop the first entry whose name is the lower-cased argument.
pub open spec fn spec_remove(
    s: Seq<(Seq<char>, Seq<char>)>,
    name: Seq<char>,
) -> Seq<(Seq<char>, Seq<char>)> {
    let i = spec_find_name(s, name);
    if i >= 0 {
        s.remove(i)
    } else {
        s
    }
}

pub open spec fn spec_get(s: Seq<(Seq<char>, Seq<char>)>, name: Seq<char>) -> Option<Seq<char>> {
    let i = spec_find_name(s, name);
    if i >= 0 {
        Some(s[i].1)
    } else {
        None
    }
}

/// How many entries carry this exact name.
pub open spec fn spec_count_name(s: Seq<(Seq<char>, Seq<char>)>, name: Seq<char>) -> nat
    decreases s.len(),
{
    if s.len() == 0 {
        0nat
    } else {
        spec_count_name(s.drop_first(), name) + (if s[0].0 == name {
            1nat
        } else {
            0nat
        })
    }
}

proof fn lemma_find_name_at(s: Seq<(Seq<char>, Seq<char>)>, name: Seq<char>, i: int)
    requires
        0 <= i < s.len(),
        s[i].0 == name,
        forall|j: int| 0 <= j < i ==> s[j].0 != name,
    ensures
        spec_find_name(s, name) == i,
    decreases i,
{
    if i > 0 {
        lemma_find_name_at(s.drop_first(), name, i - 1);
    }
}

proof fn lemma_find_name_absent(s: Seq<(Seq<char>, Seq<char>)>, name: Seq<char>)
    requires
        forall|j: int| 0 <= j < s.len() ==> s[j].0 != name,
    ensures
        spec_find_name(s, name) == -1,
    decreases s.len(),
{
    if s.len() > 0 {
        lemma_find_name_absent(s.drop_first(), name);
    }
}

impl HttpHeaders {
    /// A header list with nothing in it.
    pub fn empty() -> (r: Self)
        ensures
            r@ =~= Seq::<(Seq<char>, Seq<char>)>::empty(),
    {
        HttpHeaders { contents: Vec::new() }
    }

    /// An empty list with the given content type as its default.
    pub fn from_type(content_type: &str) -> (r: Self)
        ensures
            r@ =~= Seq::<(Seq<char>, Seq<char>)>::empty().push(("content-type"@, content_type@)),
    {
        HttpHeaders::empty().with_type(content_type)
    }

    /// Adds the content type unless one is already present.
    pub fn with_type(self, content_type: &str) -> (r: Self)
        ensures
            r@ == spec_set_default(self@, "content-type"@, content_type@),
    {
        let mut this = self;
        this.set_default(String::from_str("content-type"), String::from_str(content_type));
        this
    }

    /// Index of the first entry with this exact name, if any.
    fn find(&self, name: &str) -> (r: Option<usize>)
        ensures
            match r {
                Some(i) => 0 <= i < self@.len() && spec_find_name(self@, name@) == i,
                None => spec_find_name(self@, name@) == -1,
            },
    {
        let n = self.contents.len();
        let mut i: usize = 0;
        while i < n
            invariant
                i <= n == self.contents@.len(),
                forall|j: int| 0 <= j < i ==> self@[j].0 != name@,
            decreases n - i,
        {
            if str_eq(self.contents[i].name.as_str(), name) {
                proof {
                    lemma_find_name_at(self@, name@, i as int);
                }
                return Some(i);
            }
            i = i + 1;
        }
        proof {
            lemma_find_name_absent(self@, name@);
        }
        None
    }

    /// Replaces the value under this exact name, or appends the pair.
    pub fn set(&mut self, name: String, value: String)
        ensures
            final(self)@ == spec_set(old(self)@, name@, value@),
    {
        match self.find(name.as_str()) {
            Some(i) => {
                self.contents.remove(i);
                self.contents.insert(i, HttpHeader { name, value });
                assert(final(self)@ =~= spec_set(old(self)@, name@, value@));
            },
            None => {
                self.contents.push(HttpHeader { name, value });
                assert(final(self)@ =~= spec_set(old(self)@, name@, value@));
            },
        }
    }

    /// Case-insensitive set: the name is stored lower-cased and the value
    /// loses its leading blanks.
    pub fn set_normal(&mut self, name: String, value: String)
        ensures
            final(self)@ == spec_set_normal(old(self)@, name@, value@),
    {
        let lowered = to_ascii_lower(name.as_str());
        let trimmed = trim_start(value.as_str());
        self.set(lowered, trimmed);
    }

    /// Appends the pair only if the exact name is absent.
    pub fn set_default(&mut self, name: String, value: String)
        ensures
            final(self)@ == spec_set_default(old(self)@, name@, value@),
    {
        match self.find(name.as_str()) {
            Some(_) => {},
            None => {
                self.contents.push(HttpHeader { name, value });
                assert(final(self)@ =~= old(self)@.push((name@, value@)));
            },
        }
    }

    /// Removes the first entry whose name is the lower-cased argument.
    pub fn remove(&mut self, name: String)
        ensures
            final(self)@ == spec_remove(old(self)@, spec_lower(name@)),
    {
        let lowered = to_ascii_lower(name.as_str());
        match self.find(lowered.as_str()) {
            Some(i) => {
                self.contents.remove(i);
            },
            None => {},
        }
    }

    /// The value stored under this exact name, if any.
    pub fn get(&self, name: &str) -> (r: Option<String>)
        ensures
            r is Some <==> spec_get(self@, name@) is Some,
            r is Some ==> r.unwrap()@ == spec_get(self@, name@).unwrap(),
    {
        match self.find(name) {
            Some(i) => Some(self.contents[i].value.clone()),
            None => None,
        }
    }

    /// All entries, in stored order.
    pub fn entries(&self) -> (r: &Vec<HttpHeader>)
        ensures
            r@.map_values(|h: HttpHeader| h@) == self@,
    {
        &self.contents
    }

    /// How many headers are stored.
    pub fn len(&self) -> (r: usize)
        ensures
            r == self@.len(),
    {
        self.contents.len()
    }
}

proof fn lemma_count_update_same(s: Seq<(Seq<char>, Seq<char>)>, i: int, v: Seq<char>, name: Seq<char>)
    requires
        0 <= i < s.len(),
    ensures
        spec_count_name(s.update(i, (s[i].0, v)), name) == spec_count_name(s, name),
    decreases s.len(),
{
    let t = s.update(i, (s[i].0, v));
    if i == 0 {
        assert(t.drop_first() =~= s.drop_first());
    } else {
        assert(t.drop_first() =~= s.drop_first().update(i - 1, (s[i].0, v)));
        lemma_count_update_same(s.drop_first(), i - 1, v, name);
    }
}

proof fn lemma_count_push(s: Seq<(Seq<char>, Seq<char>)>, p: (Seq<char>, Seq<char>), name: Seq<char>)
    ensures
        spec_count_name(s.push(p), name) == spec_count_name(s, name) + (if p.0 == name {
            1nat
        } else {
            0nat
        }),
    decreases s.len(),
{
    let t = s.push(p);
    assert(t.len() == s.len() + 1);
    assert(spec_count_name(t, name) == spec_count_name(t.drop_first(), name) + (if t[0].0
        == name {
        1nat
    } else {
        0nat
    }));
    if s.len() == 0 {
        assert(t.drop_first() =~= Seq::<(Seq<char>, Seq<char>)>::empty());
        assert(t[0] == p);
    } else {
        assert(t.drop_first() =~= s.drop_first().push(p));
        assert(t[0] == s[0]);
        lemma_count_push(s.drop_first(), p, name);
    }
}

proof fn lemma_find_name_found(s: Seq<(Seq<char>, Seq<char>)>, name: Seq<char>)
    ensures
        spec_find_name(s, name) >= 0 ==> {
            let i = spec_find_name(s, name);
            0 <= i < s.len() && s[i].0 == name && (forall|j: int| 0 <= j < i ==> s[j].0 != name)
        },
        spec_find_name(s, name) == -1 ==> forall|j: int| 0 <= j < s.len() ==> s[j].0 != name,
    decreases s.len(),
{
    if s.len() > 0 {
        lemma_find_name_found(s.drop_first(), name);
        if s[0].0 != name {
            let r = spec_find_name(s.drop_first(), name);
            if r >= 0 {
                assert(spec_find_name(s, name) == r + 1);
                assert(s[r + 1] == s.drop_first()[r]);
                assert(forall|j: int|
                    1 <= j < r + 1 ==> s[j] == s.drop_first()[j - 1] && s.drop_first()[j - 1].0
                        != name);
            } else {
                assert(forall|j: int|
                    1 <= j < s.len() ==> s[j] == s.drop_first()[j - 1] && s.drop_first()[j - 1].0
                        != name);
            }
        }
    }
}

/// No two entries share an exact name. Every list the public constructors
/// and mutators can build satisfies this; the preservation laws below state
/// it for each mutator.
pub open spec fn spec_names_unique(s: Seq<(Seq<char>, Seq<char>)>) -> bool {
    forall|i: int, j: int| 0 <= i < j < s.len() ==> s[i].0 != s[j].0
}

proof fn lemma_unique_count(s: Seq<(Seq<char>, Seq<char>)>, name: Seq<char>)
    requires
        spec_names_unique(s),
    ensures
        spec_count_name(s, name) <= 1,
    decreases s.len(),
{
    if s.len() > 0 {
        assert(forall|i: int, j: int|
            0 <= i < j < s.drop_first().len() ==> s.drop_first()[i] == s[i + 1]
                && s.drop_first()[j] == s[j + 1]);
        lemma_unique_count(s.drop_first(), name);
        if s[0].0 == name {
            lemma_count_absent_of_unique(s, name);
        }
    }
}

proof fn lemma_count_absent_of_unique(s: Seq<(Seq<char>, Seq<char>)>, name: Seq<char>)
    requires
        spec_names_unique(s),
        s.len() > 0,
        s[0].0 == name,
    ensures
        spec_count_name(s.drop_first(), name) == 0,
{
    assert(forall|j: int| 0 <= j < s.drop_first().len() ==> s.drop_first()[j] == s[j + 1]);
    lemma_find_name_absent(s.drop_first(), name);
    lemma_count_absent(s.drop_first(), name);
}

/// Law: `set` keeps names unique.
pub proof fn lemma_set_preserves_names_unique(
    s: Seq<(Seq<char>, Seq<char>)>,
    name: Seq<char>,
    value: Seq<char>,
)
    requires
        spec_names_unique(s),
    ensures
        spec_names_unique(spec_set(s, name, value)),
{
    lemma_find_name_found(s, name);
    let i = spec_find_name(s, name);
    let t = spec_set(s, name, value);
    if i >= 0 {
        assert(forall|j: int| 0 <= j < t.len() ==> t[j].0 == s[j].0);
    } else {
        assert(forall|j: int| 0 <= j < s.len() ==> t[j] == s[j] && s[j].0 != name);
        assert(t[s.len() as int].0 == name);
    }
}

/// Law: `set_default` keeps names unique.
pub proof fn lemma_set_default_preserves_names_unique(
    s: Seq<(Seq<char>, Seq<char>)>,
    name: Seq<char>,
    value: Seq<char>,
)
    requires
        spec_names_unique(s),
    ensures
        spec_names_unique(spec_set_default(s, name, value)),
{
    lemma_find_name_found(s, name);
    let t = spec_set_default(s, name, value);
    if !spec_has_name(s, name) {
        assert(forall|j: int| 0 <= j < s.len() ==> t[j] == s[j] && s[j].0 != name);
        assert(t[s.len() as int].0 == name);
    }
}

/// Law: `remove` keeps names unique.
pub proof fn lemma_remove_preserves_names_unique(s: Seq<(Seq<char>, Seq<char>)>, name: Seq<char>)
    requires
        spec_names_unique(s),
    ensures
        spec_names_unique(spec_remove(s, name)),
{
    let i = spec_find_name(s, name);
    lemma_find_name_found(s, name);
    if i >= 0 {
        let t = s.remove(i);
        assert(forall|j: int| 0 <= j < t.len() ==> t[j] == (if j < i {
            s[j]
        } else {
            s[j + 1]
        }));
    }
}

/// After a `set`, an entry with that name is present.
pub proof fn lemma_set_has_name(s: Seq<(Seq<char>, Seq<char>)>, name: Seq<char>, value: Seq<char>)
    ensures
        spec_has_name(spec_set(s, name, value), name),
{
    lemma_find_name_found(s, name);
    let i = spec_find_name(s, name);
    let t = spec_set(s, name, value);
    if i >= 0 {
        assert(t[i].0 == name);
    } else {
        assert(t[s.len() as int].0 == name);
    }
    lemma_find_name_found(t, name);
    if spec_find_name(t, name) == -1 {
        assert(false);
    }
}

/// A `set` never removes a name that was present.
pub proof fn lemma_set_keeps_name(
    s: Seq<(Seq<char>, Seq<char>)>,
    name: Seq<char>,
    value: Seq<char>,
    other: Seq<char>,
)
    requires
        spec_has_name(s, other),
    ensures
        spec_has_name(spec_set(s, name, value), other),
{
    lemma_find_name_found(s, other);
    lemma_find_name_found(s, name);
    let j = spec_find_name(s, other);
    let i = spec_find_name(s, name);
    let t = spec_set(s, name, value);
    if i >= 0 && j == i {
        assert(t[j].0 == name && name == other);
    } else {
        assert(t[j].0 == other);
    }
    lemma_find_name_found(t, other);
    if spec_find_name(t, other) == -1 {
        assert(false);
    }
}

/// Law: the case-insensitive setter is idempotent. On any list with unique
/// names — the invariant every public constructor and mutator maintains,
/// see the preservation laws above — setting the same value twice under
/// names that differ only in ASCII case changes nothing the second time,
/// and exactly one entry carries the stored name afterwards.
pub proof fn lemma_set_normal_idempotent(
    s: Seq<(Seq<char>, Seq<char>)>,
    n1: Seq<char>,
    n2: Seq<char>,
    v: Seq<char>,
)
    requires
        spec_lower(n1) == spec_lower(n2),
        spec_names_unique(s),
    ensures
        spec_set_normal(spec_set_normal(s, n1, v), n2, v) == spec_set_normal(s, n1, v),
        spec_count_name(spec_set_normal(s, n1, v), spec_lower(n1)) == 1,
{
    lemma_unique_count(s, spec_lower(n1));
    let name = spec_lower(n1);
    let value = spec_trim_start(v);
    let t = spec_set(s, name, value);
    lemma_find_name_found(s, name);
    let i = spec_find_name(s, name);
    if i >= 0 {
        assert(t == s.update(i, (name, value)));
        assert(s[i].0 == name);
        lemma_count_update_same(s, i, value, name);
        lemma_find_name_at(t, name, i);
        assert(spec_set(t, name, value) =~= t.update(i, (name, value)));
        assert(t.update(i, (name, value)) =~= t);
        lemma_count_found_ge_one(s, name, i);
    } else {
        assert(t == s.push((name, value)));
        lemma_count_push(s, (name, value), name);
        lemma_count_absent(s, name);
        lemma_find_name_at(t, name, s.len() as int);
        assert(spec_set(t, name, value) =~= t.update(s.len() as int, (name, value)));
        assert(t.update(s.len() as int, (name, value)) =~= t);
    }
}

proof fn lemma_count_found_ge_one(s: Seq<(Seq<char>, Seq<char>)>, name: Seq<char>, i: int)
    requires
        0 <= i < s.len(),
        s[i].0 == name,
    ensures
        spec_count_name(s, name) >= 1,
    decreases i,
{
    if i > 0 {
        lemma_count_found_ge_one(s.drop_first(), name, i - 1);
    }
}

proof fn lemma_count_absent(s: Seq<(Seq<char>, Seq<char>)>, name: Seq<char>)
    requires
        spec_find_name(s, name) == -1,
    ensures
        spec_count_name(s, name) == 0,
    decreases s.len(),
{
    if s.len() > 0 {
        lemma_count_absent(s.drop_first(), name);
    }
}

} // verus!
