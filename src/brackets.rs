//! Removal of the bracket characters `[` and `]` from a text value.
use vstd::prelude::*;

verus! {

/// A character that the cleaning step removes.
pub open spec fn is_bracket(c: char) -> bool {
    c == '[' || c == ']'
}

/// The value with every `[` and `]` removed and all other characters kept in order.
pub open spec fn strip_brackets_spec(s: Seq<char>) -> Seq<char> {
    s.filter(|c: char| !is_bracket(c))
}

/// The bracket characters of the value, in order.
pub open spec fn brackets_of(s: Seq<char>) -> Seq<char> {
    s.filter(|c: char| is_bracket(c))
}

/// Removes every `[` and `]` from `s`; all other characters are kept in order.
pub fn strip_brackets(s: &str) -> (r: String)
    ensures
        r@ == strip_brackets_spec(s@),
{
    let n = s.unicode_len();
    let mut out = String::new();
    let mut i: usize = 0;
    while i < n
        invariant
            n == s@.len(),
            i <= n,
            out@ == strip_brackets_spec(s@.subrange(0, i as int)),
        decreases n - i,
    {
        let c = s.get_char(i);
        proof {
            let pre = s@.subrange(0, i as int);
            let next = s@.subrange(0, i + 1);
            assert(next.drop_last() =~= pre);
            assert(next.last() == c);
            reveal(Seq::filter);
        }
        if c != '[' && c != ']' {
            let piece = s.substring_char(i, i + 1);
            out.append(piece);
            assert(piece@ =~= seq![c]);
        }
        i = i + 1;
    }
    assert(s@.subrange(0, n as int) =~= s@);
    out
}

/// The cleaned value holds no bracket character, and it is shorter than the
/// input value by exactly the number of bracket characters that value held.
pub proof fn lemma_strip_brackets_removes_all(s: Seq<char>)
    ensures
        forall|i: int|
            0 <= i < strip_brackets_spec(s).len() ==> !is_bracket(
                #[trigger] strip_brackets_spec(s)[i],
            ),
        strip_brackets_spec(s).len() == s.len() - brackets_of(s).len(),
    decreases s.len(),
{
    broadcast use vstd::seq_lib::group_filter_ensures;

    reveal(Seq::filter);
    if s.len() > 0 {
        lemma_strip_brackets_removes_all(s.drop_last());
    }
}

} // verus!
