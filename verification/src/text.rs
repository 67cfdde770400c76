//! Scanning ASCII text for a separator.
use vstd::prelude::*;
use vstd::string::*;

verus! {

/// Whether `k` is where `c` first occurs in `s`, or the length of `s` if `c`
/// does not occur at all.
pub open spec fn is_first(s: Seq<char>, c: char, k: int) -> bool {
    &&& 0 <= k <= s.len()
    &&& forall|j: int| 0 <= j < k ==> s[j] != c
    &&& k < s.len() ==> s[k] == c
}

/// The index of the first `c` in `s`, or the length of `s` if there is none.
pub open spec fn find(s: Seq<char>, c: char) -> int {
    choose|k: int| is_first(s, c, k)
}

/// Whether `c` occurs nowhere in `s`.
pub open spec fn lacks(s: Seq<char>, c: char) -> bool {
    forall|j: int| 0 <= j < s.len() ==> s[j] != c
}

/// There is one first occurrence only.
pub proof fn lemma_find_unique(s: Seq<char>, c: char, k: int)
    requires
        is_first(s, c, k),
    ensures
        find(s, c) == k,
{
    let f = find(s, c);
    assert(is_first(s, c, f));
    if f < k {
        assert(s[f] != c);
    } else if k < f {
        assert(s[k] != c);
    }
}

/// In `head + [c] + tail`, where `head` holds no `c`, the first `c` is the one
/// between the two.
pub proof fn lemma_find_joined(head: Seq<char>, c: char, tail: Seq<char>)
    requires
        lacks(head, c),
    ensures
        find(head + seq![c] + tail, c) == head.len(),
        (head + seq![c] + tail).take(head.len() as int) == head,
        (head + seq![c] + tail).skip(head.len() as int + 1) == tail,
{
    let s = head + seq![c] + tail;
    assert forall|j: int| 0 <= j < head.len() implies s[j] != c by {
        assert(s[j] == head[j]);
    }
    assert(s[head.len() as int] == c);
    lemma_find_unique(s, c, head.len() as int);
    assert(s.take(head.len() as int) =~= head);
    assert(s.skip(head.len() as int + 1) =~= tail);
}

/// In a text without `c`, `find` gives the length.
pub proof fn lemma_find_none(s: Seq<char>, c: char)
    requires
        lacks(s, c),
    ensures
        find(s, c) == s.len(),
{
    lemma_find_unique(s, c, s.len() as int);
}

/// The index of the first byte `b` in `bytes[from..to]`, or `to`.
pub fn find_byte(bytes: &[u8], from: usize, to: usize, b: u8) -> (k: usize)
    requires
        from <= to <= bytes@.len(),
    ensures
        from <= k <= to,
        forall|j: int| from <= j < k ==> bytes@[j] != b,
        k < to ==> bytes@[k as int] == b,
{
    let mut k: usize = from;
    while k < to
        invariant
            from <= k <= to <= bytes@.len(),
            forall|j: int| from <= j < k ==> bytes@[j] != b,
        decreases to - k,
    {
        if bytes[k] == b {
            return k;
        }
        k += 1;
    }
    k
}

/// Tells whether the ASCII byte `b` occurs in `s`.
pub fn contains_byte(s: &str, b: u8) -> (found: bool)
    requires
        s.is_ascii(),
        b < 128,
    ensures
        found == !lacks(s@, b as char),
{
    proof {
        is_ascii_spec_bytes(s);
    }
    let bytes = s.as_bytes();
    let k = find_byte(bytes, 0, bytes.len(), b);
    proof {
        if k < bytes@.len() {
            assert(s@[k as int] == b as char);
        } else {
            assert forall|j: int| 0 <= j < s@.len() implies s@[j] != b as char by {
                assert(bytes@[j] != b);
            }
        }
    }
    k < bytes.len()
}

} // verus!
