//! Text operations on characters and strings: whitespace, trimming,
//! uppercasing and line feeds, with their character-level specifications.

use vstd::prelude::*;
use vstd::std_specs::iter::IteratorSpec;

verus! {

broadcast use vstd::string::group_string_axioms;

/// Whether `c` has the Unicode `White_Space` property, as PropList.txt of
/// the Unicode Character Database lists it: the controls U+0009 to U+000D,
/// the space U+0020, U+0085, the no-break space U+00A0, U+1680, the spaces
/// U+2000 to U+200A, the line and paragraph separators U+2028 and U+2029,
/// U+202F, U+205F and U+3000. This is the property that `char::is_whitespace`
/// tests.
pub open spec fn white_space(c: char) -> bool {
    let n = c as u32;
    ||| 0x9 <= n <= 0xd
    ||| n == 0x20
    ||| n == 0x85
    ||| n == 0xa0
    ||| n == 0x1680
    ||| 0x2000 <= n <= 0x200a
    ||| n == 0x2028
    ||| n == 0x2029
    ||| n == 0x202f
    ||| n == 0x205f
    ||| n == 0x3000
}

/// Whether `c` is whitespace (see `white_space`).
pub fn is_whitespace(c: char) -> (ws: bool)
    ensures
        ws == white_space(c),
{
    let n = c as u32;
    (0x9 <= n && n <= 0xd) || n == 0x20 || n == 0x85 || n == 0xa0 || n == 0x1680 || (0x2000 <= n
        && n <= 0x200a) || n == 0x2028 || n == 0x2029 || n == 0x202f || n == 0x205f || n == 0x3000
}

/// The characters of `s`, in order.
pub fn char_vec(s: &str) -> (chars: Vec<char>)
    ensures
        chars@ == s@,
{
    let mut it = s.chars();
    let mut chars: Vec<char> = Vec::new();
    loop
        invariant
            chars@ + it.remaining() == s@,
            it.decrease() is Some,
        ensures
            chars@ == s@,
        decreases it.decrease()->0,
    {
        match it.next() {
            Some(c) => {
                chars.push(c);
            },
            None => {
                break;
            },
        }
    }
    chars
}

/// `s` without its leading whitespace.
pub open spec fn trim_start(s: Seq<char>) -> Seq<char>
    decreases s.len(),
{
    if s.len() > 0 && white_space(s[0]) {
        trim_start(s.drop_first())
    } else {
        s
    }
}

/// `s` without its trailing whitespace.
pub open spec fn trim_end(s: Seq<char>) -> Seq<char>
    decreases s.len(),
{
    if s.len() > 0 && white_space(s.last()) {
        trim_end(s.drop_last())
    } else {
        s
    }
}

/// `s` without its leading and trailing whitespace.
pub open spec fn spec_trim(s: Seq<char>) -> Seq<char> {
    trim_end(trim_start(s))
}

/// Skipping `k` leading whitespace characters, up to the first one that is
/// not, is what `trim_start` does.
proof fn lemma_trim_start(s: Seq<char>, k: int)
    requires
        0 <= k <= s.len(),
        forall|j: int| 0 <= j < k ==> white_space(#[trigger] s[j]),
        k == s.len() || !white_space(s[k]),
    ensures
        trim_start(s) == s.skip(k),
    decreases k,
{
    if k == 0 {
        assert(s.skip(0) =~= s);
    } else {
        assert(white_space(s[0]));
        let rest = s.drop_first();
        assert forall|j: int| 0 <= j < k - 1 implies white_space(#[trigger] rest[j]) by {
            assert(rest[j] == s[j + 1]);
        }
        lemma_trim_start(rest, k - 1);
        assert(rest.skip(k - 1) =~= s.skip(k));
    }
}

/// Dropping the whitespace characters from `e` on, after one that is not,
/// is what `trim_end` does.
proof fn lemma_trim_end(t: Seq<char>, e: int)
    requires
        0 <= e <= t.len(),
        forall|j: int| e <= j < t.len() ==> white_space(#[trigger] t[j]),
        e == 0 || !white_space(t[e - 1]),
    ensures
        trim_end(t) == t.take(e),
    decreases t.len(),
{
    if t.len() == e {
        assert(t.take(e) =~= t);
    } else {
        assert(white_space(t[t.len() - 1]));
        let rest = t.drop_last();
        assert forall|j: int| e <= j < rest.len() implies white_space(#[trigger] rest[j]) by {
            assert(rest[j] == t[j]);
        }
        lemma_trim_end(rest, e);
        assert(rest.take(e) =~= t.take(e));
    }
}

/// `s` without its leading and trailing whitespace, as a slice of it.
pub fn trim(s: &str) -> (trimmed: &str)
    ensures
        trimmed@ == spec_trim(s@),
{
    let chars = char_vec(s);
    let n = chars.len();
    let mut start: usize = 0;
    while start < n && is_whitespace(chars[start])
        invariant
            start <= n,
            n == s@.len(),
            chars@ == s@,
            forall|j: int| 0 <= j < start ==> white_space(#[trigger] s@[j]),
        decreases n - start,
    {
        start = start + 1;
    }
    let mut end: usize = n;
    while end > start && is_whitespace(chars[end - 1])
        invariant
            start <= end <= n,
            n == s@.len(),
            chars@ == s@,
            forall|j: int| end <= j < n ==> white_space(#[trigger] s@[j]),
        decreases end,
    {
        end = end - 1;
    }
    proof {
        lemma_trim_start(s@, start as int);
        let t = s@.skip(start as int);
        assert forall|j: int| end - start <= j < t.len() implies white_space(#[trigger] t[j]) by {
            assert(t[j] == s@[j + start]);
        }
        if end > start {
            assert(t[end - start - 1] == s@[end - 1]);
        }
        lemma_trim_end(t, end - start);
        assert(t.take(end - start) =~= s@.subrange(start as int, end as int));
    }
    s.substring_char(start, end)
}

/// What `str::to_uppercase` returns for a string: each character mapped to
/// its Unicode uppercase, which may be several characters. It is given a
/// name here and not written out.
pub uninterp spec fn uppercase(s: Seq<char>) -> Seq<char>;

/// `str::to_uppercase`: the uppercase equivalent of `s`.
#[verifier::external_body]
pub(crate) fn to_uppercase(s: &str) -> (upper: String)
    ensures
        upper@ == uppercase(s@),
{
    s.to_uppercase()
}

/// `String::push`: appends `c` to the end of `s`.
#[verifier::external_body]
pub(crate) fn push_char(s: &mut String, c: char)
    ensures
        final(s)@ == old(s)@.push(c),
{
    s.push(c);
}

/// `s` with every line feed replaced by a space.
pub open spec fn newlines_to_spaces(s: Seq<char>) -> Seq<char> {
    s.map_values(|c: char| if c == '\n' { ' ' } else { c })
}

/// A copy of `s` in which every line feed is replaced by a space.
pub fn replace_newlines(s: &str) -> (replaced: String)
    ensures
        replaced@ == newlines_to_spaces(s@),
{
    let chars = char_vec(s);
    let mut replaced = String::new();
    let mut i: usize = 0;
    while i < chars.len()
        invariant
            i <= chars@.len(),
            chars@ == s@,
            replaced@ == newlines_to_spaces(chars@.take(i as int)),
        decreases chars.len() - i,
    {
        let c = chars[i];
        if c == '\n' {
            push_char(&mut replaced, ' ');
        } else {
            push_char(&mut replaced, c);
        }
        proof {
            assert(newlines_to_spaces(chars@.take(i + 1)) =~= newlines_to_spaces(
                chars@.take(i as int),
            ).push(if c == '\n' { ' ' } else { c }));
        }
        i = i + 1;
    }
    proof {
        assert(chars@.take(chars@.len() as int) =~= chars@);
    }
    replaced
}

/// A string with the characters of `s`.
pub fn to_string(s: &str) -> (owned: String)
    ensures
        owned@ == s@,
{
    s.to_owned()
}

/// The concatenation of `a` and `b`.
pub fn concat(a: &str, b: &str) -> (joined: String)
    ensures
        joined@ == a@ + b@,
{
    let mut joined = a.to_owned();
    joined.append(b);
    joined
}

} // verus!
