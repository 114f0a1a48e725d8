//! Finding the first occurrence of an item in a sequence, and splitting a
//! sequence at every occurrence.

use vstd::prelude::*;

verus! {

/// The index of the first `x` in `s`, or the length of `s` if it holds none.
pub open spec fn first_index<A>(s: Seq<A>, x: A) -> nat
    decreases s.len(),
{
    if s.len() == 0 || s[0] == x {
        0
    } else {
        1 + first_index(s.skip(1), x)
    }
}

/// The pieces of `s` between the occurrences of `sep`. There is one piece more
/// than there are occurrences; a piece may be empty.
pub open spec fn split_on<A>(s: Seq<A>, sep: A) -> Seq<Seq<A>>
    decreases s.len(),
{
    let end = first_index(s, sep);
    if end >= s.len() {
        seq![s]
    } else {
        seq![s.take(end as int)] + split_on(s.skip(end as int + 1), sep)
    }
}

/// `first_index` is the least index that holds `x`.
pub proof fn lemma_first_index<A>(s: Seq<A>, x: A)
    ensures
        first_index(s, x) <= s.len(),
        first_index(s, x) < s.len() ==> s[first_index(s, x) as int] == x,
        forall|i: int| 0 <= i < first_index(s, x) ==> s[i] != x,
    decreases s.len(),
{
    if s.len() != 0 && s[0] != x {
        let rest = s.skip(1);
        lemma_first_index(rest, x);
        assert forall|i: int| 0 <= i < first_index(s, x) implies s[i] != x by {
            if i > 0 {
                assert(rest[i - 1] == s[i]);
            }
        }
    }
}

/// An index that holds the first `x` of `s` is `first_index(s, x)`; so is the
/// length of `s` where it holds none.
pub proof fn lemma_first_index_is<A>(s: Seq<A>, x: A, at: int)
    requires
        0 <= at <= s.len(),
        at < s.len() ==> s[at] == x,
        forall|i: int| 0 <= i < at ==> s[i] != x,
    ensures
        first_index(s, x) == at,
{
    lemma_first_index(s, x);
}

/// A split has at least one piece, and every piece is free of the separator.
pub proof fn lemma_split_on<A>(s: Seq<A>, sep: A)
    ensures
        split_on(s, sep).len() >= 1,
        forall|k: int, i: int|
            0 <= k < split_on(s, sep).len() && 0 <= i < split_on(s, sep)[k].len()
                ==> #[trigger] split_on(s, sep)[k][i] != sep,
    decreases s.len(),
{
    lemma_first_index(s, sep);
    let end = first_index(s, sep);
    if end < s.len() {
        let rest = s.skip(end as int + 1);
        lemma_split_on(rest, sep);
        let parts = split_on(s, sep);
        assert forall|k: int, i: int|
            0 <= k < parts.len() && 0 <= i < parts[k].len() implies #[trigger] parts[k][i]
            != sep by {
            if k > 0 {
                assert(parts[k] == split_on(rest, sep)[k - 1]);
            }
        }
    }
}

/// The index of the first `x` among the bytes from `from` on, counted from the
/// start of `bytes`; the length of `bytes` if there is none.
pub fn find_byte(bytes: &[u8], from: usize, x: u8) -> (at: usize)
    requires
        from <= bytes.len(),
    ensures
        from <= at <= bytes.len(),
        at - from == first_index(bytes@.skip(from as int), x),
{
    let mut at: usize = from;
    while at < bytes.len() && bytes[at] != x
        invariant
            from <= at <= bytes.len(),
            forall|i: int| from <= i < at ==> bytes[i] != x,
        decreases bytes.len() - at,
    {
        at += 1;
    }
    proof {
        lemma_first_index_is(bytes@.skip(from as int), x, at - from);
    }
    at
}

/// The index of the first `x` among the characters from `from` on, counted
/// from the start of `chars`; the length of `chars` if there is none.
pub fn find_char(chars: &Vec<char>, from: usize, x: char) -> (at: usize)
    requires
        from <= chars.len(),
    ensures
        from <= at <= chars.len(),
        at - from == first_index(chars@.skip(from as int), x),
{
    let mut at: usize = from;
    while at < chars.len() && chars[at] != x
        invariant
            from <= at <= chars.len(),
            forall|i: int| from <= i < at ==> chars[i] != x,
        decreases chars.len() - at,
    {
        at += 1;
    }
    proof {
        lemma_first_index_is(chars@.skip(from as int), x, at - from);
    }
    at
}

/// The characters of a string slice, one by one.
pub fn chars_of(text: &str) -> (chars: Vec<char>)
    ensures
        chars@ == text@,
{
    let mut chars: Vec<char> = Vec::new();
    for c in it: text.chars()
        invariant
            chars@ == it.seq().take(it.index()),
    {
        chars.push(c);
    }
    chars
}

/// Whether the characters of `chars` from `start` up to `end` spell `word`.
pub fn spells(chars: &Vec<char>, start: usize, end: usize, word: &str) -> (same: bool)
    requires
        start <= end <= chars.len(),
    ensures
        same == (chars@.subrange(start as int, end as int) == word@),
{
    let letters = chars_of(word);
    if letters.len() != end - start {
        return false;
    }
    let mut i: usize = 0;
    while i < letters.len()
        invariant
            start <= end <= chars.len(),
            letters.len() == end - start,
            i <= letters.len(),
            letters@ == word@,
            forall|j: int| 0 <= j < i ==> chars[start + j] == letters[j],
        decreases letters.len() - i,
    {
        if chars[start + i] != letters[i] {
            proof {
                assert(chars@.subrange(start as int, end as int)[i as int] != word@[i as int]);
            }
            return false;
        }
        i += 1;
    }
    proof {
        assert(chars@.subrange(start as int, end as int) =~= word@);
    }
    true
}

} // verus!
