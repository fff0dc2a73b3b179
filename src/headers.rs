use vstd::prelude::*;
use crate::text::{lower, to_lower};

verus! {

/// One header line: a name and its value.
pub type Field = (Seq<char>, Seq<char>);

/// The value of the first field named `n`, if any.
pub open spec fn lookup(h: Seq<Field>, n: Seq<char>) -> Option<Seq<char>>
    decreases h.len(),
{
    if h.len() == 0 {
        None
    } else {
        match lookup(h.drop_last(), n) {
            Some(v) => Some(v),
            None => if h.last().0 == n {
                Some(h.last().1)
            } else {
                None
            },
        }
    }
}

/// The value of the last field named `n`, if any.
pub open spec fn last_lookup(h: Seq<Field>, n: Seq<char>) -> Option<Seq<char>>
    decreases h.len(),
{
    if h.len() == 0 {
        None
    } else if h.last().0 == n {
        Some(h.last().1)
    } else {
        last_lookup(h.drop_last(), n)
    }
}

/// Every name is lower-cased, as the methods of `Headers` keep it.
pub open spec fn lowercase_names(h: Seq<Field>) -> bool {
    forall|i: int| 0 <= i < h.len() ==> lower(#[trigger] h[i].0) == h[i].0
}

/// No name occurs twice.
pub open spec fn distinct_names(h: Seq<Field>) -> bool {
    forall|i: int, j: int| 0 <= i < j < h.len() ==> #[trigger] h[i].0 != #[trigger] h[j].0
}

/// The fields not named `n`, in their order.
pub open spec fn without(h: Seq<Field>, n: Seq<char>) -> Seq<Field>
    decreases h.len(),
{
    if h.len() == 0 {
        h
    } else if h.last().0 == n {
        without(h.drop_last(), n)
    } else {
        without(h.drop_last(), n).push(h.last())
    }
}

/// The fields after setting `n` to `v`, dropping its earlier values.
pub open spec fn with_field(h: Seq<Field>, n: Seq<char>, v: Seq<char>) -> Seq<Field> {
    without(h, n).push((n, v))
}

pub proof fn lemma_lookup_push(h: Seq<Field>, f: Field, n: Seq<char>)
    ensures
        lookup(h.push(f), n) == (match lookup(h, n) {
            Some(v) => Some(v),
            None => if f.0 == n {
                Some(f.1)
            } else {
                None
            },
        }),
{
    assert(h.push(f).drop_last() =~= h);
}

pub proof fn lemma_lookup_without(h: Seq<Field>, n: Seq<char>, m: Seq<char>)
    ensures
        lookup(without(h, n), m) == if m == n {
            None
        } else {
            lookup(h, m)
        },
    decreases h.len(),
{
    if h.len() > 0 {
        lemma_lookup_without(h.drop_last(), n, m);
        if h.last().0 != n {
            lemma_lookup_push(without(h.drop_last(), n), h.last(), m);
        }
    }
}

/// What a lookup finds right after a field was set.
pub proof fn lemma_lookup_with_field(h: Seq<Field>, n: Seq<char>, v: Seq<char>, m: Seq<char>)
    ensures
        lookup(with_field(h, n, v), m) == if m == n {
            Some(v)
        } else {
            lookup(h, m)
        },
{
    lemma_lookup_without(h, n, m);
    lemma_lookup_push(without(h, n), (n, v), m);
}

/// Every field left after removing `n` is a field of `h` not named `n`,
/// and the order of the kept fields is the order they had in `h`.
pub proof fn lemma_without_fields(h: Seq<Field>, n: Seq<char>)
    ensures
        forall|i: int| 0 <= i < without(h, n).len() ==> (#[trigger] without(h, n)[i]).0 != n,
        forall|i: int|
            0 <= i < without(h, n).len() ==> exists|j: int|
                0 <= j < h.len() && #[trigger] without(h, n)[i] == h[j],
        without(h, n).len() <= h.len(),
        lowercase_names(h) ==> lowercase_names(without(h, n)),
        distinct_names(h) ==> distinct_names(without(h, n)),
        (forall|i: int| 0 <= i < h.len() ==> (#[trigger] h[i]).0 != n) ==> without(h, n) == h,
    decreases h.len(),
{
    if h.len() > 0 {
        let d = h.drop_last();
        lemma_without_fields(d, n);
        let w = without(d, n);
        if h.last().0 != n {
            let r = w.push(h.last());
            assert forall|i: int| 0 <= i < r.len() implies exists|j: int|
                0 <= j < h.len() && #[trigger] r[i] == h[j] by {
                if i < w.len() {
                    assert(r[i] == w[i]);
                    let j = choose|j: int| 0 <= j < d.len() && #[trigger] w[i] == d[j];
                    assert(h[j] == d[j]);
                } else {
                    assert(r[i] == h[h.len() - 1]);
                }
            }
            if distinct_names(h) {
                assert(distinct_names(d));
                assert forall|a: int, b: int| 0 <= a < b < r.len() implies #[trigger] r[a].0
                    != #[trigger] r[b].0 by {
                    if b == r.len() - 1 {
                        let j = choose|j: int| 0 <= j < d.len() && #[trigger] w[a] == d[j];
                        assert(h[j] == d[j]);
                        assert(h[h.len() - 1] == h.last());
                    } else {
                        assert(r[a] == w[a] && r[b] == w[b]);
                    }
                }
            }
            if lowercase_names(h) {
                assert(lowercase_names(d));
                assert forall|i: int| 0 <= i < r.len() implies lower(#[trigger] r[i].0) == r[i].0 by {
                    if i < w.len() {
                        assert(r[i] == w[i]);
                    } else {
                        assert(h[h.len() - 1] == h.last());
                    }
                }
            }
            if forall|i: int| 0 <= i < h.len() ==> (#[trigger] h[i]).0 != n {
                assert forall|i: int| 0 <= i < d.len() implies (#[trigger] d[i]).0 != n by {
                    assert(h[i] == d[i]);
                }
                assert(h =~= d.push(h.last()));
            }
        } else {
            if distinct_names(h) {
                assert(distinct_names(d));
            }
            if lowercase_names(h) {
                assert(lowercase_names(d));
            }
            assert(h[h.len() - 1].0 == n);
            assert forall|i: int| 0 <= i < w.len() implies exists|j: int|
                0 <= j < h.len() && #[trigger] w[i] == h[j] by {
                let j = choose|j: int| 0 <= j < d.len() && #[trigger] w[i] == d[j];
                assert(h[j] == d[j]);
            }
        }
    }
}

/// Lower-casing twice is lower-casing once.
pub proof fn lemma_lower_idempotent(s: Seq<char>)
    ensures
        lower(lower(s)) == lower(s),
{
    assert(lower(lower(s)) =~= lower(s));
}

/// A list of header fields, in order; names are kept lower-cased and one
/// name may occur several times.
pub struct Headers {
    entries: Vec<(String, String)>,
}

impl View for Headers {
    type V = Seq<Field>;

    closed spec fn view(&self) -> Seq<Field> {
        self.entries@.map_values(|e: (String, String)| (e.0@, e.1@))
    }
}

impl Headers {
    pub fn new() -> (r: Headers)
        ensures
            r@ == Seq::<Field>::empty(),
            lowercase_names(r@),
    {
        let r = Headers { entries: Vec::new() };
        assert(r@ =~= Seq::<Field>::empty());
        r
    }

    pub fn len(&self) -> (r: usize)
        ensures
            r == self@.len(),
    {
        self.entries.len()
    }

    /// A copy holding the same fields.
    pub fn duplicate(&self) -> (r: Headers)
        ensures
            r@ == self@,
            lowercase_names(self@) ==> lowercase_names(r@),
    {
        let mut entries: Vec<(String, String)> = Vec::new();
        let mut i: usize = 0;
        while i < self.entries.len()
            invariant
                i <= self@.len(),
                self@.len() == self.entries@.len(),
                entries@.len() == i,
                forall|k: int| 0 <= k < i ==> #[trigger] entries@[k] == self.entries@[k],
            decreases self.entries.len() - i,
        {
            let e = &self.entries[i];
            entries.push((e.0.clone(), e.1.clone()));
            i = i + 1;
        }
        let r = Headers { entries };
        assert(r@ =~= self@);
        r
    }

    /// The name and value of the field at position `i`.
    pub fn field(&self, i: usize) -> (r: (String, String))
        requires
            i < self@.len(),
        ensures
            r.0@ == self@[i as int].0,
            r.1@ == self@[i as int].1,
    {
        let e = &self.entries[i];
        (e.0.clone(), e.1.clone())
    }

    /// The first value of the field `name`, compared without case.
    pub fn get(&self, name: &str) -> (r: Option<String>)
        ensures
            r matches Some(v) ==> lookup(self@, lower(name@)) == Some(v@),
            r is None ==> lookup(self@, lower(name@)) is None,
    {
        let key = to_lower(name);
        let mut found: Option<String> = None;
        let mut i: usize = 0;
        while i < self.entries.len()
            invariant
                key@ == lower(name@),
                i <= self@.len(),
                self@.len() == self.entries@.len(),
                found matches Some(v) ==> lookup(self@.subrange(0, i as int), key@) == Some(v@),
                found is None ==> lookup(self@.subrange(0, i as int), key@) is None,
            decreases self.entries.len() - i,
        {
            let e = &self.entries[i];
            proof {
                assert(self@.subrange(0, i + 1) =~= self@.subrange(0, i as int).push(self@[i as int]));
                lemma_lookup_push(self@.subrange(0, i as int), self@[i as int], key@);
            }
            if found.is_none() && e.0 == key {
                found = Some(e.1.clone());
            }
            i = i + 1;
        }
        assert(self@.subrange(0, self@.len() as int) =~= self@);
        found
    }

    /// Removes every field named `name`.
    pub fn remove(&mut self, name: &str)
        ensures
            final(self)@ == without(old(self)@, lower(name@)),
            lowercase_names(old(self)@) ==> lowercase_names(final(self)@),
    {
        let key = to_lower(name);
        let ghost h = self@;
        let mut kept: Vec<(String, String)> = Vec::new();
        let mut i: usize = 0;
        while i < self.entries.len()
            invariant
                key@ == lower(name@),
                h == self@,
                i <= self@.len(),
                self@.len() == self.entries@.len(),
                (Headers { entries: kept })@ == without(h.subrange(0, i as int), key@),
            decreases self.entries.len() - i,
        {
            let e = &self.entries[i];
            proof {
                assert(h.subrange(0, i + 1).drop_last() =~= h.subrange(0, i as int));
            }
            if e.0 != key {
                kept.push((e.0.clone(), e.1.clone()));
                assert((Headers { entries: kept })@ =~= without(h.subrange(0, i as int), key@).push(h[i as int]));
            }
            i = i + 1;
        }
        assert(h.subrange(0, h.len() as int) =~= h);
        self.entries = kept;
        proof {
            lemma_without_fields(h, key@);
        }
    }

    /// Sets `name` to `value`, dropping its earlier values.
    pub fn insert(&mut self, name: &str, value: &str)
        ensures
            final(self)@ == with_field(old(self)@, lower(name@), value@),
            lowercase_names(old(self)@) ==> lowercase_names(final(self)@),
    {
        self.remove(name);
        self.append(name, value);
    }

    /// Adds a field at the end, keeping the earlier values of `name`.
    pub fn append(&mut self, name: &str, value: &str)
        ensures
            final(self)@ == old(self)@.push((lower(name@), value@)),
            lowercase_names(old(self)@) ==> lowercase_names(final(self)@),
    {
        let key = to_lower(name);
        self.entries.push((key, value.to_owned()));
        assert(self@ =~= old(self)@.push((lower(name@), value@)));
        proof {
            lemma_lower_idempotent(name@);
        }
    }

    /// Adds a field at the end exactly as given.
    pub(crate) fn push_field(&mut self, name: String, value: String)
        ensures
            final(self)@ == old(self)@.push((name@, value@)),
    {
        self.entries.push((name, value));
        assert(self@ =~= old(self)@.push((name@, value@)));
    }

    /// The last value of the field `name`, compared without case.
    pub fn get_last(&self, name: &str) -> (r: Option<String>)
        ensures
            r matches Some(v) ==> last_lookup(self@, lower(name@)) == Some(v@),
            r is None ==> last_lookup(self@, lower(name@)) is None,
    {
        let key = to_lower(name);
        let mut found: Option<String> = None;
        let mut i: usize = 0;
        while i < self.entries.len()
            invariant
                key@ == lower(name@),
                i <= self@.len(),
                self@.len() == self.entries@.len(),
                found matches Some(v) ==> last_lookup(self@.subrange(0, i as int), key@) == Some(v@),
                found is None ==> last_lookup(self@.subrange(0, i as int), key@) is None,
            decreases self.entries.len() - i,
        {
            let e = &self.entries[i];
            proof {
                assert(self@.subrange(0, i + 1).drop_last() =~= self@.subrange(0, i as int));
            }
            if e.0 == key {
                found = Some(e.1.clone());
            }
            i = i + 1;
        }
        assert(self@.subrange(0, self@.len() as int) =~= self@);
        found
    }
}

} // verus!
