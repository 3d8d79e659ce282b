use vstd::prelude::*;

verus! {

/// `text` begins with `prefix`.
pub open spec fn starts_with(text: Seq<char>, prefix: Seq<char>) -> bool {
    prefix.len() <= text.len() && text.subrange(0, prefix.len() as int) == prefix
}

/// `part` occurs somewhere in `text`.
pub open spec fn contains_text(text: Seq<char>, part: Seq<char>) -> bool {
    exists|p: int|
        0 <= p && p + part.len() <= text.len() && #[trigger] text.subrange(p, p + part.len())
            == part
}

/// Every text contains itself.
pub proof fn lemma_contains_self(s: Seq<char>)
    ensures
        contains_text(s, s),
{
    let z: int = 0;
    assert(s.subrange(z, z + s.len()) =~= s);
}

/// What occurs in either half occurs in the concatenation.
pub proof fn lemma_contains_concat(a: Seq<char>, b: Seq<char>, part: Seq<char>)
    ensures
        contains_text(a, part) || contains_text(b, part) ==> contains_text(a + b, part),
{
    if contains_text(a, part) {
        let p = choose|p: int|
            0 <= p && p + part.len() <= a.len() && #[trigger] a.subrange(p, p + part.len())
                == part;
        assert((a + b).subrange(p, p + part.len()) =~= a.subrange(p, p + part.len()));
    } else if contains_text(b, part) {
        let p = choose|p: int|
            0 <= p && p + part.len() <= b.len() && #[trigger] b.subrange(p, p + part.len())
                == part;
        let q = p + a.len();
        assert((a + b).subrange(q, q + part.len()) =~= b.subrange(p, p + part.len()));
    }
}

/// A prefix stays a prefix when text is appended.
pub proof fn lemma_starts_with_concat(a: Seq<char>, b: Seq<char>, prefix: Seq<char>)
    requires
        starts_with(a, prefix),
    ensures
        starts_with(a + b, prefix),
{
    assert((a + b).subrange(0, prefix.len() as int) =~= a.subrange(0, prefix.len() as int));
}

} // verus!
