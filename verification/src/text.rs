//! Text segmentation: first-word extraction and length-based selection
//! between two text views.
//!
//! Both operations work code point by code point, so a multi-byte
//! character is never split: the only split point ever used is an
//! ASCII space, which in well-formed text is a whole code point of its
//! own. The returned views borrow the source text and stay valid for
//! as long as the source is borrowed and unchanged.

use vstd::prelude::*;
use vstd::string::StrSliceExecFns;

verus! {

/// Number of code points before the first ASCII space of `s`; the
/// whole length when `s` holds no space.
pub open spec fn first_word_len(s: Seq<char>) -> int
    decreases s.len(),
{
    if s.len() == 0 {
        0
    } else if s[0] == ' ' {
        0
    } else {
        1 + first_word_len(s.drop_first())
    }
}

/// The prefix of `s` up to, and not including, its first ASCII space;
/// all of `s` when it holds no space.
pub open spec fn first_word_spec(s: Seq<char>) -> Seq<char> {
    s.take(first_word_len(s))
}

/// The split point is in bounds, everything before it is not a space,
/// and it sits on a space unless the text holds none.
pub proof fn lemma_first_word_len_props(s: Seq<char>)
    ensures
        0 <= first_word_len(s) <= s.len(),
        forall|j: int| 0 <= j < first_word_len(s) ==> s[j] != ' ',
        first_word_len(s) < s.len() ==> s[first_word_len(s)] == ' ',
    decreases s.len(),
{
    if s.len() > 0 && s[0] != ' ' {
        lemma_first_word_len_props(s.drop_first());
        assert forall|j: int| 0 <= j < first_word_len(s) implies s[j] != ' ' by {
            if j > 0 {
                assert(s.drop_first()[j - 1] == s[j]);
            }
        }
    }
}

/// A position with no space before it, and a space (or the end) on it,
/// is the split point.
proof fn lemma_first_word_len_is(s: Seq<char>, i: int)
    requires
        0 <= i <= s.len(),
        forall|j: int| 0 <= j < i ==> s[j] != ' ',
        i < s.len() ==> s[i] == ' ',
    ensures
        first_word_len(s) == i,
    decreases s.len(),
{
    if i > 0 {
        assert(s[0] != ' ');
        assert forall|j: int| 0 <= j < i - 1 implies s.drop_first()[j] != ' ' by {
            assert(s.drop_first()[j] == s[j + 1]);
        }
        assert(i - 1 < s.drop_first().len() ==> s.drop_first()[i - 1] == s[i]);
        lemma_first_word_len_is(s.drop_first(), i - 1);
    }
}

/// The first word of the source: everything before the first ASCII
/// space, or the whole source if it holds no space. The result borrows
/// the source and must not outlive it.
pub fn first_word(source: &str) -> (r: &str)
    ensures
        r@ == first_word_spec(source@),
{
    let n = source.unicode_len();
    let mut i: usize = 0;
    while i < n
        invariant
            n == source@.len(),
            0 <= i <= n,
            forall|j: int| 0 <= j < i ==> source@[j] != ' ',
        decreases n - i,
    {
        let c = source.get_char(i);
        if c == ' ' {
            proof {
                lemma_first_word_len_is(source@, i as int);
            }
            let r = source.substring_char(0, i);
            proof {
                assert(r@ =~= first_word_spec(source@));
            }
            return r;
        }
        i = i + 1;
    }
    proof {
        lemma_first_word_len_is(source@, n as int);
        assert(source@ =~= first_word_spec(source@));
    }
    source
}

/// The longer of two text views, by code point count.
pub open spec fn longest_spec(x: Seq<char>, y: Seq<char>) -> Seq<char> {
    if x.len() >= y.len() {
        x
    } else {
        y
    }
}

/// Whichever of the two views is strictly longer, counted in code
/// points; on a tie the first argument wins. The result borrows both
/// arguments conservatively: it must not be used once either source
/// may have been mutated or dropped.
pub fn longest<'a>(x: &'a str, y: &'a str) -> (r: &'a str)
    ensures
        r@ == longest_spec(x@, y@),
{
    if x.unicode_len() >= y.unicode_len() {
        x
    } else {
        y
    }
}

} // verus!
