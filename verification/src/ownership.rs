//! Borrowing helpers: mutating a borrowed string and slicing out its first
//! word.

use vstd::prelude::*;

verus! {

/// Appends a farewell to the borrowed string.
pub fn change_value(s: &mut String)
    ensures
        final(s)@ == old(s)@ + " Bye!"@,
{
    s.append(" Bye!");
}

/// The index (in characters) just past the first word: the position of the
/// first space, or the length of the string when it holds no space.
pub fn get_first_word_end(s: &str) -> (end: usize)
    ensures
        end <= s@.len(),
        forall|j: int| 0 <= j < end ==> s@[j] != ' ',
        end < s@.len() ==> s@[end as int] == ' ',
        end == s@.len() ==> forall|j: int| 0 <= j < s@.len() ==> s@[j] != ' ',
{
    let len = s.unicode_len();
    let mut i: usize = 0;
    while i < len
        invariant
            i <= len,
            len == s@.len(),
            forall|j: int| 0 <= j < i ==> s@[j] != ' ',
        decreases len - i,
    {
        if s.get_char(i) == ' ' {
            return i;
        }
        i = i + 1;
    }
    i
}

/// The first word of the string: everything before the first space.
pub fn get_first_word(s: &str) -> (w: &str)
    ensures
        w@ == s@.subrange(0, get_first_word_end_spec(s@)),
{
    let end = get_first_word_end(s);
    proof {
        lemma_first_word_end_unique(s@, end as int);
    }
    s.substring_char(0, end)
}

/// Where the first word ends: the index of the first space, or the length.
pub open spec fn get_first_word_end_spec(s: Seq<char>) -> int
    decreases s.len(),
{
    if s.len() == 0 {
        0
    } else if s[0] == ' ' {
        0
    } else {
        1 + get_first_word_end_spec(s.drop_first())
    }
}

/// The characterisation of `get_first_word_end` pins down one position:
/// any index with no space before it that sits on a space (or at the end of
/// a spaceless string) is the recursive first-word end.
proof fn lemma_first_word_end_unique(s: Seq<char>, end: int)
    requires
        0 <= end <= s.len(),
        forall|j: int| 0 <= j < end ==> s[j] != ' ',
        end < s.len() ==> s[end] == ' ',
        end == s.len() ==> forall|j: int| 0 <= j < s.len() ==> s[j] != ' ',
    ensures
        end == get_first_word_end_spec(s),
    decreases s.len(),
{
    if s.len() == 0 {
    } else if s[0] == ' ' {
        assert(end == 0);
    } else {
        assert(end >= 1);
        let t = s.drop_first();
        assert forall|j: int| 0 <= j < end - 1 implies t[j] != ' ' by {
            assert(t[j] == s[j + 1]);
        }
        if end - 1 < t.len() {
            assert(t[end - 1] == s[end]);
        } else {
            assert forall|j: int| 0 <= j < t.len() implies t[j] != ' ' by {
                assert(t[j] == s[j + 1]);
            }
        }
        lemma_first_word_end_unique(t, end - 1);
    }
}

} // verus!
