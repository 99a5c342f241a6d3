//! String operations of the standard library that the highlighter relies on,
//! each with the contract the rest of the crate reasons from.

use vstd::prelude::*;
use vstd::utf8::is_ascii_chars;

verus! {

/// The text `s` with every match of `from` replaced by `to`, matches taken
/// from left to right and never overlapping.
pub open spec fn replaced(s: Seq<char>, from: Seq<char>, to: Seq<char>) -> Seq<char>
    recommends
        from.len() > 0,
    decreases s.len(),
{
    if from.len() == 0 || s.len() < from.len() {
        s
    } else if s.subrange(0, from.len() as int) == from {
        to + replaced(s.skip(from.len() as int), from, to)
    } else {
        seq![s[0]] + replaced(s.skip(1), from, to)
    }
}

/// Calls `str::replace` with a string pattern. Trusted: the result is the
/// input with each non-overlapping match of `from`, found from the left,
/// replaced by `to`. An empty pattern is left out.
#[verifier::external_body]
pub(crate) fn replace_all(s: &str, from: &str, to: &str) -> (r: String)
    requires
        from@.len() > 0,
    ensures
        r@ == replaced(s@, from@, to@),
{
    s.replace(from, to)
}

/// What `str::to_lowercase` returns for a text that holds a character
/// outside ASCII: its lowercase equivalent by the Unicode rules.
pub uninterp spec fn unicode_lowercased(s: Seq<char>) -> Seq<char>;

/// The lowercase form of an ASCII character: the letters `A` to `Z` become
/// `a` to `z`, every other character stays.
pub open spec fn ascii_lower(c: char) -> char {
    if 'A' <= c && c <= 'Z' {
        ((c as u8) + 32) as char
    } else {
        c
    }
}

/// The lowercase form of the text `s`: character by character where the text
/// is ASCII, by the Unicode rules otherwise.
pub open spec fn lowercased(s: Seq<char>) -> Seq<char> {
    if is_ascii_chars(s) {
        s.map_values(|c: char| ascii_lower(c))
    } else {
        unicode_lowercased(s)
    }
}

/// Calls `str::to_lowercase`. Trusted: an ASCII text comes back with its
/// capital letters made small and nothing else changed; of another text the
/// result depends on the text alone.
#[verifier::external_body]
pub(crate) fn to_lowercase(s: &str) -> (r: String)
    ensures
        r@ == lowercased(s@),
        !is_ascii_chars(s@) ==> r@ == unicode_lowercased(s@),
{
    s.to_lowercase()
}

/// Whether `c` has the Unicode property White_Space, by which
/// `str::trim_end` tells what to remove.
pub open spec fn white_space(c: char) -> bool {
    let n = c as u32;
    ||| (0x09 <= n && n <= 0x0D)
    ||| n == 0x20
    ||| n == 0x85
    ||| n == 0xA0
    ||| n == 0x1680
    ||| (0x2000 <= n && n <= 0x200A)
    ||| n == 0x2028
    ||| n == 0x2029
    ||| n == 0x202F
    ||| n == 0x205F
    ||| n == 0x3000
}

/// The text `s` without its trailing whitespace.
pub open spec fn trimmed_end(s: Seq<char>) -> Seq<char>
    decreases s.len(),
{
    if s.len() > 0 && white_space(s.last()) {
        trimmed_end(s.drop_last())
    } else {
        s
    }
}

/// Calls `str::trim_end`. Trusted: the result is the longest prefix of the
/// input that does not end in a whitespace character.
#[verifier::external_body]
pub(crate) fn trim_end(s: &str) -> (r: &str)
    ensures
        r@ == trimmed_end(s@),
{
    s.trim_end()
}

/// Trimming yields a prefix of the text, and everything cut off is
/// whitespace.
pub proof fn lemma_trimmed_end_prefix(s: Seq<char>)
    ensures
        trimmed_end(s).len() <= s.len(),
        trimmed_end(s) == s.subrange(0, trimmed_end(s).len() as int),
        forall|i: int| trimmed_end(s).len() <= i < s.len() ==> white_space(#[trigger] s[i]),
        trimmed_end(s).len() > 0 ==> !white_space(trimmed_end(s).last()),
    decreases s.len(),
{
    if s.len() > 0 && white_space(s.last()) {
        let t = s.drop_last();
        lemma_trimmed_end_prefix(t);
        let n = trimmed_end(t).len() as int;
        assert(t.subrange(0, n) =~= s.subrange(0, n));
        assert forall|i: int| trimmed_end(s).len() <= i < s.len() implies white_space(
            #[trigger] s[i],
        ) by {
            if i < t.len() {
                assert(s[i] == t[i]);
            }
        }
    } else {
        assert(s.subrange(0, s.len() as int) =~= s);
    }
}

/// A text of whitespace alone trims to nothing.
pub proof fn lemma_trimmed_end_blank(s: Seq<char>)
    requires
        forall|i: int| 0 <= i < s.len() ==> white_space(#[trigger] s[i]),
    ensures
        trimmed_end(s).len() == 0,
    decreases s.len(),
{
    if s.len() > 0 {
        let t = s.drop_last();
        assert forall|i: int| 0 <= i < t.len() implies white_space(#[trigger] t[i]) by {
            assert(t[i] == s[i]);
        }
        lemma_trimmed_end_blank(t);
    }
}

/// Whitespace added at the end of a text is trimmed with the rest.
pub proof fn lemma_trimmed_end_appended(s: Seq<char>, more: Seq<char>)
    requires
        forall|i: int| 0 <= i < more.len() ==> white_space(#[trigger] more[i]),
    ensures
        trimmed_end(s + more) == trimmed_end(s),
    decreases more.len(),
{
    if more.len() == 0 {
        assert(s + more =~= s);
    } else {
        let less = more.drop_last();
        assert((s + more).drop_last() =~= s + less);
        assert((s + more).last() == more[more.len() - 1]);
        assert forall|i: int| 0 <= i < less.len() implies white_space(#[trigger] less[i]) by {
            assert(less[i] == more[i]);
        }
        lemma_trimmed_end_appended(s, less);
    }
}

} // verus!
