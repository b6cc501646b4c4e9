//! Finding the first element of a sequence for which a predicate holds.

use vstd::prelude::*;

verus! {

/// The index of the first element of `s` for which `p` holds, or the length
/// of `s` if it holds for none.
pub open spec fn first_where<A>(s: Seq<A>, p: spec_fn(A) -> bool) -> int
    decreases s.len(),
{
    if s.len() == 0 || p(s[0]) {
        0
    } else {
        1 + first_where(s.skip(1), p)
    }
}

/// `first_where` is within bounds, `p` fails before it and holds at it.
pub proof fn lemma_first_where<A>(s: Seq<A>, p: spec_fn(A) -> bool)
    ensures
        0 <= first_where(s, p) <= s.len(),
        forall|i: int| 0 <= i < first_where(s, p) ==> !p(#[trigger] s[i]),
        first_where(s, p) < s.len() ==> p(s[first_where(s, p)]),
    decreases s.len(),
{
    if s.len() == 0 || p(s[0]) {
    } else {
        let rest = s.skip(1);
        lemma_first_where(rest, p);
        assert forall|i: int| 0 <= i < first_where(s, p) implies !p(#[trigger] s[i]) by {
            if i > 0 {
                assert(s[i] == rest[i - 1]);
            }
        }
        assert(first_where(rest, p) < rest.len() ==> rest[first_where(rest, p)] == s[first_where(
            s,
            p,
        )]);
    }
}

/// An index before which `p` fails, and at which `p` holds unless it is the
/// length, is `first_where`.
pub proof fn lemma_first_where_is<A>(s: Seq<A>, p: spec_fn(A) -> bool, k: int)
    requires
        0 <= k <= s.len(),
        forall|i: int| 0 <= i < k ==> !p(#[trigger] s[i]),
        k < s.len() ==> p(s[k]),
    ensures
        first_where(s, p) == k,
{
    lemma_first_where(s, p);
    let f = first_where(s, p);
    if f < k {
        assert(!p(s[f]));
    } else if k < f {
        assert(!p(s[k]));
    }
}

/// Holds of the character `c` and of no other.
pub open spec fn is_char(c: char) -> spec_fn(char) -> bool {
    |x: char| x == c
}

/// The index of the first `c` in `s`, or the length of `s` if `c` does not
/// occur in it.
pub open spec fn position(s: Seq<char>, c: char) -> int {
    first_where(s, is_char(c))
}

/// `position` is within bounds, `c` does not occur before it and stands at
/// it; it is the length exactly where `c` does not occur at all.
pub proof fn lemma_position(s: Seq<char>, c: char)
    ensures
        0 <= position(s, c) <= s.len(),
        forall|i: int| 0 <= i < position(s, c) ==> #[trigger] s[i] != c,
        position(s, c) < s.len() ==> s[position(s, c)] == c,
        position(s, c) < s.len() <==> s.contains(c),
{
    lemma_first_where(s, is_char(c));
}

/// An index before which `c` does not occur, and at which it stands unless
/// the index is the length, is `position`.
pub proof fn lemma_position_is(s: Seq<char>, c: char, k: int)
    requires
        0 <= k <= s.len(),
        forall|i: int| 0 <= i < k ==> #[trigger] s[i] != c,
        k < s.len() ==> s[k] == c,
    ensures
        position(s, c) == k,
{
    lemma_first_where_is(s, is_char(c), k);
}

/// Finds the first `c` in `chars[from..to]`: the result is its index in
/// `chars`, or `to` if there is none.
pub fn find_char(chars: &Vec<char>, from: usize, to: usize, c: char) -> (at: usize)
    requires
        from <= to <= chars.len(),
    ensures
        from <= at <= to,
        at - from == position(chars@.subrange(from as int, to as int), c),
{
    let mut at: usize = from;
    while at < to && chars[at] != c
        invariant
            from <= at <= to <= chars.len(),
            forall|i: int| from <= i < at ==> chars@[i] != c,
        decreases to - at,
    {
        at += 1;
    }
    proof {
        lemma_position_is(chars@.subrange(from as int, to as int), c, at - from);
    }
    at
}

} // verus!
