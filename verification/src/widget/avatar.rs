use vstd::prelude::*;

use crate::text::{is_whitespace, push_char, to_uppercase, uppercase, white_space};

verus! {

/// Whether position `i` of `s` starts a word: a character that is not
/// whitespace, first in `s` or after whitespace.
pub open spec fn word_start(s: Seq<char>, i: int) -> bool {
    &&& 0 <= i < s.len()
    &&& !white_space(s[i])
    &&& (i == 0 || white_space(s[i - 1]))
}

/// The first characters of the words that start in the first `n` characters
/// of `s`, in order.
pub open spec fn word_starts(s: Seq<char>, n: int) -> Seq<char>
    decreases n,
{
    if n <= 0 {
        Seq::empty()
    } else if word_start(s, n - 1) {
        word_starts(s, n - 1).push(s[n - 1])
    } else {
        word_starts(s, n - 1)
    }
}

/// The first two elements of `s`, or all of them when it has fewer.
pub open spec fn first_two(s: Seq<char>) -> Seq<char> {
    if s.len() <= 2 {
        s
    } else {
        s.take(2)
    }
}

/// The initials of `name`: the first characters of its first two words,
/// uppercased.
pub open spec fn spec_initials(name: Seq<char>) -> Seq<char> {
    uppercase(first_two(word_starts(name, name.len() as int)))
}

/// The initials that an avatar without a picture shows: the first letters of
/// the first two words of `name`, in uppercase.
pub fn initials(name: &str) -> (letters: String)
    ensures
        letters@ == spec_initials(name@),
{
    let len = name.unicode_len();
    let mut firsts = String::new();
    let mut previous_white = true;
    let mut i: usize = 0;
    while i < len
        invariant
            len == name@.len(),
            i <= len,
            firsts@ == first_two(word_starts(name@, i as int)),
            i > 0 ==> previous_white == white_space(name@[i - 1]),
            i == 0 ==> previous_white,
        decreases len - i,
    {
        let c = name.get_char(i);
        let white = is_whitespace(c);
        let ghost before = word_starts(name@, i as int);
        if !white && previous_white {
            assert(word_start(name@, i as int));
            assert(word_starts(name@, i + 1) == before.push(c));
            if firsts.unicode_len() < 2 {
                push_char(&mut firsts, c);
            } else {
                assert(first_two(before.push(c)) =~= first_two(before));
            }
            assert(first_two(word_starts(name@, i + 1)) =~= firsts@);
        } else {
            assert(!word_start(name@, i as int));
        }
        previous_white = white;
        i = i + 1;
    }
    to_uppercase(firsts.as_str())
}

} // verus!
