//! The text form of a list of named values: `key=value` pairs joined by `;`.
//!
//! Reading splits the text at every `;` and each piece at its first `=`. A
//! piece without `=` makes the whole text malformed, so the empty text and a
//! text that ends in `;` are malformed too.
use crate::headers::{pairs_of, Header};
use crate::text::{find, find_byte, lacks, lemma_find_joined, lemma_find_none, lemma_find_unique};
use vstd::prelude::*;
use vstd::string::*;

verus! {

/// The text of one pair.
pub open spec fn pair_text(pair: (Seq<char>, Seq<char>)) -> Seq<char> {
    pair.0 + seq!['='] + pair.1
}

/// The text of a list of pairs: the pairs' texts with `;` between them.
pub open spec fn join_pairs(pairs: Seq<(Seq<char>, Seq<char>)>) -> Seq<char>
    decreases pairs.len(),
{
    if pairs.len() == 0 {
        Seq::empty()
    } else if pairs.len() == 1 {
        pair_text(pairs[0])
    } else {
        join_pairs(pairs.drop_last()) + seq![';'] + pair_text(pairs.last())
    }
}

/// The pair that a piece of text denotes: what stands before its first `=` and
/// what stands after it.
pub open spec fn parse_pair(piece: Seq<char>) -> Option<(Seq<char>, Seq<char>)> {
    let eq = find(piece, '=');
    if 0 <= eq < piece.len() {
        Some((piece.take(eq), piece.skip(eq + 1)))
    } else {
        None
    }
}

/// The pairs that a text denotes, or nothing if one of its pieces is no pair.
pub open spec fn parse_pairs(text: Seq<char>) -> Option<Seq<(Seq<char>, Seq<char>)>>
    decreases text.len(),
{
    let end = find(text, ';');
    if 0 <= end < text.len() {
        match (parse_pair(text.take(end)), parse_pairs(text.skip(end + 1))) {
            (Some(pair), Some(rest)) => Some(seq![pair] + rest),
            _ => None,
        }
    } else {
        match parse_pair(text) {
            Some(pair) => Some(seq![pair]),
            None => None,
        }
    }
}

/// Whether a pair can be written and read back: its key holds neither `=` nor
/// `;`, its value no `;`.
pub open spec fn pair_ok(pair: (Seq<char>, Seq<char>)) -> bool {
    lacks(pair.0, '=') && lacks(pair.0, ';') && lacks(pair.1, ';')
}

/// The text of a pair that can be read back holds no `;` and denotes the pair.
pub proof fn lemma_parse_pair_text(pair: (Seq<char>, Seq<char>))
    requires
        pair_ok(pair),
    ensures
        lacks(pair_text(pair), ';'),
        parse_pair(pair_text(pair)) == Some(pair),
{
    let text = pair_text(pair);
    lemma_find_joined(pair.0, '=', pair.1);
    assert forall|j: int| 0 <= j < text.len() implies text[j] != ';' by {
        if j < pair.0.len() {
            assert(text[j] == pair.0[j]);
        } else if j > pair.0.len() {
            assert(text[j] == pair.1[j - pair.0.len() - 1]);
        }
    }
}

/// The text of two or more pairs starts with the text of the first, then `;`,
/// then the text of the others.
pub proof fn lemma_join_front(pairs: Seq<(Seq<char>, Seq<char>)>)
    requires
        pairs.len() >= 2,
    ensures
        join_pairs(pairs) == pair_text(pairs[0]) + seq![';'] + join_pairs(pairs.drop_first()),
    decreases pairs.len(),
{
    let front = pairs.drop_last();
    let rest = pairs.drop_first();
    if pairs.len() == 2 {
        assert(front =~= seq![pairs[0]]);
        assert(rest =~= seq![pairs[1]]);
        assert(join_pairs(front) == pair_text(pairs[0]));
        assert(join_pairs(rest) == pair_text(pairs[1]));
    } else {
        lemma_join_front(front);
        assert(front.drop_first() =~= rest.drop_last());
        assert(front[0] == pairs[0]);
        assert(rest.last() == pairs.last());
        assert(join_pairs(rest) == join_pairs(rest.drop_last()) + seq![';'] + pair_text(
            rest.last(),
        ));
        assert(join_pairs(pairs) =~= pair_text(pairs[0]) + seq![';'] + join_pairs(rest));
    }
}

/// Reading the text of a list of pairs gives the list back, if the list is not
/// empty and each of its pairs can be read back.
pub proof fn lemma_parse_join(pairs: Seq<(Seq<char>, Seq<char>)>)
    requires
        pairs.len() > 0,
        forall|i: int| 0 <= i < pairs.len() ==> pair_ok(#[trigger] pairs[i]),
    ensures
        parse_pairs(join_pairs(pairs)) == Some(pairs),
    decreases pairs.len(),
{
    let first = pair_text(pairs[0]);
    lemma_parse_pair_text(pairs[0]);
    if pairs.len() == 1 {
        lemma_find_none(first, ';');
        assert(seq![pairs[0]] =~= pairs);
    } else {
        let rest = pairs.drop_first();
        assert forall|i: int| 0 <= i < rest.len() implies pair_ok(#[trigger] rest[i]) by {
            assert(rest[i] == pairs[i + 1]);
        }
        lemma_parse_join(rest);
        lemma_join_front(pairs);
        lemma_find_joined(first, ';', join_pairs(rest));
        assert(seq![pairs[0]] + rest =~= pairs);
    }
}

/// The text of the pairs in `entries`.
pub fn write_pairs(entries: &Vec<Header>) -> (text: String)
    ensures
        text@ == join_pairs(pairs_of(entries@)),
{
    let mut text = String::new();
    let mut i: usize = 0;
    while i < entries.len()
        invariant
            i <= entries@.len(),
            text@ == join_pairs(pairs_of(entries@).take(i as int)),
        decreases entries@.len() - i,
    {
        let ghost done = pairs_of(entries@).take(i as int);
        let ghost next = pairs_of(entries@).take(i + 1);
        proof {
            assert(next.drop_last() =~= done);
            assert(next.last() == (entries@[i as int].name@, entries@[i as int].value@));
            reveal_strlit(";");
            reveal_strlit("=");
        }
        if i > 0 {
            text.append(";");
        }
        text.append(entries[i].name.as_str());
        text.append("=");
        text.append(entries[i].value.as_str());
        proof {
            assert(";"@ =~= seq![';']);
            assert("="@ =~= seq!['=']);
            assert(text@ =~= join_pairs(next));
        }
        i += 1;
    }
    proof {
        assert(pairs_of(entries@).take(i as int) =~= pairs_of(entries@));
    }
    text
}

/// `front` before what `rest` denotes, if `rest` denotes anything.
pub open spec fn prepend(
    front: Seq<(Seq<char>, Seq<char>)>,
    rest: Option<Seq<(Seq<char>, Seq<char>)>>,
) -> Option<Seq<(Seq<char>, Seq<char>)>> {
    match rest {
        Some(pairs) => Some(front + pairs),
        None => None,
    }
}

/// The pairs that `text` denotes, or nothing if `text` is malformed. A text
/// that is not ASCII counts as malformed.
pub fn read_pairs(text: &str) -> (entries: Option<Vec<Header>>)
    ensures
        match entries {
            Some(list) => text.is_ascii() && parse_pairs(text@) == Some(pairs_of(list@)),
            None => !text.is_ascii() || parse_pairs(text@) is None,
        },
{
    if !text.is_ascii() {
        return None;
    }
    proof {
        is_ascii_spec_bytes(text);
    }
    let bytes = text.as_bytes();
    let n = bytes.len();
    let mut list: Vec<Header> = Vec::new();
    let mut pos: usize = 0;
    proof {
        assert(text@.skip(0) =~= text@);
        assert(pairs_of(list@) + parse_pairs(text@)->0 =~= parse_pairs(text@)->0) by {
            assert(pairs_of(list@) =~= Seq::<(Seq<char>, Seq<char>)>::empty());
        }
    }
    loop
        invariant
            pos <= n,
            n == text@.len(),
            text.is_ascii(),
            bytes@ == Seq::new(text@.len(), |k: int| text@[k] as u8),
            parse_pairs(text@) == prepend(pairs_of(list@), parse_pairs(text@.skip(pos as int))),
        decreases n - pos,
    {
        let end = find_byte(bytes, pos, n, 59);
        let eq = find_byte(bytes, pos, end, 61);
        let ghost tail = text@.skip(pos as int);
        let ghost piece = text@.subrange(pos as int, end as int);
        proof {
            assert forall|j: int| 0 <= j < end - pos implies tail[j] != ';' by {
                assert(bytes@[pos + j] != 59);
            }
            if end < n {
                assert(bytes@[end as int] == 59);
                assert(tail[end - pos] == ';');
            }
            lemma_find_unique(tail, ';', end - pos);
            assert(tail.take(end - pos) =~= piece);
            if end == n {
                assert(piece =~= tail);
            }
            assert forall|j: int| 0 <= j < eq - pos implies piece[j] != '=' by {
                assert(bytes@[pos + j] != 61);
            }
            if eq < end {
                assert(bytes@[eq as int] == 61);
                assert(piece[eq - pos] == '=');
            }
            lemma_find_unique(piece, '=', eq - pos);
        }
        if eq == end {
            return None;
        }
        let key = text.substring_ascii(pos, eq);
        let value = text.substring_ascii(eq + 1, end);
        let ghost before = pairs_of(list@);
        let ghost pair = (key@, value@);
        list.push(Header { name: key.to_owned(), value: value.to_owned() });
        proof {
            assert(piece.take(eq - pos) =~= key@);
            assert(piece.skip(eq - pos + 1) =~= value@);
            assert(parse_pair(piece) == Some(pair));
            assert(pairs_of(list@) =~= before.push(pair));
        }
        if end == n {
            proof {
                assert(parse_pairs(tail) == Some(seq![pair]));
                assert(before + seq![pair] =~= pairs_of(list@));
            }
            return Some(list);
        }
        proof {
            assert(tail.skip(end - pos + 1) =~= text@.skip(end + 1));
            match parse_pairs(text@.skip(end + 1)) {
                Some(rest) => {
                    assert(before + (seq![pair] + rest) =~= pairs_of(list@) + rest);
                },
                None => {},
            }
        }
        pos = end + 1;
    }
}

} // verus!
