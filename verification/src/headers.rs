//! A map from header names to header values.
//!
//! Names are compared as they are written: callers that receive headers from
//! HTTP hand in lower-case names. Setting a header replaces the value it had.
use vstd::prelude::*;
use vstd::string::*;

verus! {

/// One header: a name and its value.
#[derive(Clone, Debug, PartialEq, Eq)]
pub struct Header {
    pub name: String,
    pub value: String,
}

/// The headers of one message.
#[derive(Clone, Debug, PartialEq, Eq)]
pub struct HeaderMap {
    entries: Vec<Header>,
}

/// The name and value of each entry, in order.
pub open spec fn pairs_of(entries: Seq<Header>) -> Seq<(Seq<char>, Seq<char>)> {
    entries.map_values(|h: Header| (h.name@, h.value@))
}

/// The value of the first pair named `name`, if there is one.
pub open spec fn lookup(pairs: Seq<(Seq<char>, Seq<char>)>, name: Seq<char>) -> Option<Seq<char>>
    decreases pairs.len(),
{
    if pairs.len() == 0 {
        None
    } else if pairs[0].0 == name {
        Some(pairs[0].1)
    } else {
        lookup(pairs.drop_first(), name)
    }
}

/// What `lookup` gives, stated by index: the first pair with that name
/// decides, and without one there is no value.
pub proof fn lemma_lookup_index(pairs: Seq<(Seq<char>, Seq<char>)>, name: Seq<char>, k: int)
    requires
        0 <= k <= pairs.len(),
        forall|j: int| 0 <= j < k ==> pairs[j].0 != name,
    ensures
        k == pairs.len() ==> lookup(pairs, name) is None,
        k < pairs.len() && pairs[k].0 == name ==> lookup(pairs, name) == Some(pairs[k].1),
    decreases k,
{
    if k > 0 {
        let rest = pairs.drop_first();
        assert forall|j: int| 0 <= j < k - 1 implies rest[j].0 != name by {
            assert(rest[j] == pairs[j + 1]);
        }
        lemma_lookup_index(rest, name, k - 1);
        if k < pairs.len() {
            assert(rest[k - 1] == pairs[k]);
        }
    }
}

/// After the pair at `k`, the first named `name`, is replaced by
/// `(name, value)`, or that pair is added at the end, `k` being the length, a
/// lookup of `name` gives `value` and every other lookup is unchanged.
proof fn lemma_lookup_after_set(
    before: Seq<(Seq<char>, Seq<char>)>,
    after: Seq<(Seq<char>, Seq<char>)>,
    name: Seq<char>,
    value: Seq<char>,
    k: int,
    other: Seq<char>,
)
    requires
        0 <= k <= before.len(),
        forall|j: int| 0 <= j < k ==> before[j].0 != name,
        k < before.len() ==> before[k].0 == name && after == before.update(k, (name, value)),
        k == before.len() ==> after == before.push((name, value)),
    ensures
        lookup(after, other) == (if other == name {
            Some(value)
        } else {
            lookup(before, other)
        }),
    decreases before.len(),
{
    if before.len() == 0 {
        assert(after.drop_first() =~= Seq::<(Seq<char>, Seq<char>)>::empty());
    } else if k == 0 {
        assert(after.drop_first() =~= before.drop_first());
    } else {
        let b = before.drop_first();
        let a = after.drop_first();
        assert(after[0] == before[0]);
        assert forall|j: int| 0 <= j < k - 1 implies b[j].0 != name by {
            assert(b[j] == before[j + 1]);
        }
        if k < before.len() {
            assert(b[k - 1] == before[k]);
            assert(a =~= b.update(k - 1, (name, value)));
        } else {
            assert(a =~= b.push((name, value)));
        }
        lemma_lookup_after_set(b, a, name, value, k - 1, other);
    }
}

/// The index of the first entry named `name`, or the number of entries.
pub fn position(entries: &Vec<Header>, name: &str) -> (k: usize)
    ensures
        k <= entries@.len(),
        forall|j: int| 0 <= j < k ==> pairs_of(entries@)[j].0 != name@,
        k < entries@.len() ==> pairs_of(entries@)[k as int].0 == name@,
{
    let key = name.to_owned();
    let mut k: usize = 0;
    while k < entries.len()
        invariant
            k <= entries@.len(),
            key@ == name@,
            forall|j: int| 0 <= j < k ==> pairs_of(entries@)[j].0 != name@,
        decreases entries@.len() - k,
    {
        if entries[k].name == key {
            return k;
        }
        k += 1;
    }
    k
}

/// The value of the first entry named `name`, if there is one.
pub fn first_value<'a>(entries: &'a Vec<Header>, name: &str) -> (value: Option<&'a str>)
    ensures
        match value {
            Some(text) => lookup(pairs_of(entries@), name@) == Some(text@),
            None => lookup(pairs_of(entries@), name@) is None,
        },
{
    let k = position(entries, name);
    proof {
        lemma_lookup_index(pairs_of(entries@), name@, k as int);
    }
    if k < entries.len() {
        Some(entries[k].value.as_str())
    } else {
        None
    }
}

impl View for HeaderMap {
    type V = Map<Seq<char>, Seq<char>>;

    closed spec fn view(&self) -> Map<Seq<char>, Seq<char>> {
        Map::new(
            |name: Seq<char>| lookup(pairs_of(self.entries@), name) is Some,
            |name: Seq<char>| lookup(pairs_of(self.entries@), name)->0,
        )
    }
}

impl HeaderMap {
    /// A map without headers.
    pub fn new() -> (headers: HeaderMap)
        ensures
            headers@ == Map::<Seq<char>, Seq<char>>::empty(),
    {
        let headers = HeaderMap { entries: Vec::new() };
        proof {
            assert(headers@ =~= Map::<Seq<char>, Seq<char>>::empty());
        }
        headers
    }

    /// The value of the header `name`, if the map holds it.
    pub fn get(&self, name: &str) -> (value: Option<&str>)
        ensures
            match value {
                Some(text) => self@.contains_key(name@) && self@[name@] == text@,
                None => !self@.contains_key(name@),
            },
    {
        first_value(&self.entries, name)
    }

    /// Sets the header `name` to `value`, in place of any value it had.
    pub fn set(&mut self, name: &str, value: String)
        ensures
            final(self)@ == old(self)@.insert(name@, value@),
    {
        let k = position(&self.entries, name);
        let ghost before = pairs_of(self.entries@);
        let header = Header { name: name.to_owned(), value };
        if k < self.entries.len() {
            self.entries.set(k, header);
        } else {
            self.entries.push(header);
        }
        proof {
            let after = pairs_of(self.entries@);
            if k < before.len() {
                assert(after =~= before.update(k as int, (name@, header.value@)));
            } else {
                assert(after =~= before.push((name@, header.value@)));
            }
            assert forall|other: Seq<char>|
                lookup(after, other) == (if other == name@ {
                    Some(header.value@)
                } else {
                    lookup(before, other)
                }) by {
                lemma_lookup_after_set(before, after, name@, header.value@, k as int, other);
            }
            assert(self@ =~= old(self)@.insert(name@, header.value@));
        }
    }
}

} // verus!
