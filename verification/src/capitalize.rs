//! First-character capitalization of strings.

use vstd::prelude::*;
use vstd::string::{StrSliceExecFns, StringExecFns};
use crate::unicode::{is_whitespace_char, upper_of, upper_seq};

verus! {

/// The capitalization of a string: the uppercase mapping of its first
/// character followed by the rest of the string unchanged. An empty
/// string stays empty.
pub open spec fn capitalized(s: Seq<char>) -> Seq<char> {
    if s.len() == 0 {
        Seq::empty()
    } else {
        upper_of(s[0]) + s.subrange(1, s.len() as int)
    }
}

/// Capitalizes the first character of a string: its uppercase mapping
/// (which may be more than one character) followed by the rest of the
/// string unchanged.
pub trait Capitalize: Sized + View<V = Seq<char>> {
    fn capitalize(self) -> (r: String)
        ensures
            r@ == capitalized(self@),
    ;
}

impl Capitalize for String {
    fn capitalize(self) -> (r: String) {
        capitalize_chars(self.as_str())
    }
}

impl Capitalize for &str {
    fn capitalize(self) -> (r: String) {
        capitalize_chars(self)
    }
}

fn capitalize_chars(s: &str) -> (r: String)
    ensures
        r@ == capitalized(s@),
{
    let n = s.unicode_len();
    if n == 0 {
        return String::new();
    }
    let mut out = crate::unicode::char_to_upper(s.get_char(0));
    out.append(s.substring_char(1, n));
    out
}

/// The index of the first character that is not whitespace, or the length
/// of the string when every character is whitespace.
pub open spec fn first_non_ws_idx(s: Seq<char>) -> int
    decreases s.len(),
{
    if s.len() == 0 {
        0
    } else if !is_whitespace_char(s[0]) {
        0
    } else {
        1 + first_non_ws_idx(s.drop_first())
    }
}

/// How many leading characters `capitalize_untrimmed` uppercases: the
/// leading whitespace run plus the first non-whitespace character, or a
/// single character when the string is all whitespace.
pub open spec fn untrimmed_prefix_len(s: Seq<char>) -> int {
    if first_non_ws_idx(s) < s.len() {
        first_non_ws_idx(s) + 1
    } else {
        1
    }
}

/// The untrimmed capitalization of a string: the uppercase mapping of the
/// prefix through the first non-whitespace character, followed by the rest
/// of the string unchanged. An empty string stays empty.
pub open spec fn capitalized_untrimmed(s: Seq<char>) -> Seq<char> {
    if s.len() == 0 {
        Seq::empty()
    } else {
        upper_seq(s.subrange(0, untrimmed_prefix_len(s))) + s.subrange(
            untrimmed_prefix_len(s),
            s.len() as int,
        )
    }
}

proof fn lemma_first_non_ws_idx_bounds(s: Seq<char>)
    ensures
        0 <= first_non_ws_idx(s) <= s.len(),
    decreases s.len(),
{
    if s.len() > 0 && is_whitespace_char(s[0]) {
        lemma_first_non_ws_idx_bounds(s.drop_first());
    }
}

proof fn lemma_first_non_ws_idx_from_scan(s: Seq<char>, i: int)
    requires
        0 <= i <= s.len(),
        forall|t: int| 0 <= t < i ==> is_whitespace_char(s[t]),
        i < s.len() ==> !is_whitespace_char(s[i]),
    ensures
        first_non_ws_idx(s) == i,
    decreases i,
{
    if i > 0 {
        lemma_first_non_ws_idx_from_scan(s.drop_first(), i - 1);
    }
}

proof fn lemma_upper_seq_push(s: Seq<char>, c: char)
    ensures
        upper_seq(s.push(c)) == upper_seq(s) + upper_of(c),
    decreases s.len(),
{
    let p = s.push(c);
    if s.len() == 0 {
        assert(p[0] == c);
        assert(p.drop_first() =~= Seq::<char>::empty());
        assert(upper_seq(p.drop_first()) == Seq::<char>::empty());
        assert(upper_seq(p) == upper_of(c) + upper_seq(p.drop_first()));
        assert(upper_seq(p) =~= upper_of(c));
        assert(upper_seq(s) == Seq::<char>::empty());
        assert(upper_seq(s) + upper_of(c) =~= upper_of(c));
    } else {
        lemma_upper_seq_push(s.drop_first(), c);
        assert(p[0] == s[0]);
        assert(p.drop_first() =~= s.drop_first().push(c));
        assert(upper_seq(p) == upper_of(s[0]) + upper_seq(p.drop_first()));
        assert(upper_seq(p.drop_first()) == upper_seq(s.drop_first()) + upper_of(c));
        assert(upper_seq(s) == upper_of(s[0]) + upper_seq(s.drop_first()));
        assert(upper_of(s[0]) + (upper_seq(s.drop_first()) + upper_of(c)) =~= (upper_of(s[0])
            + upper_seq(s.drop_first())) + upper_of(c));
    }
}

/// Capitalizes the first non-whitespace character of a string: the prefix
/// through that character is replaced by its uppercase mapping (whitespace
/// has none and passes through unchanged) and the rest of the string is
/// unchanged.
pub trait CapitalizeUntrimmed: Sized + View<V = Seq<char>> {
    fn capitalize_untrimmed(self) -> (r: String)
        ensures
            r@ == capitalized_untrimmed(self@),
    ;
}

impl CapitalizeUntrimmed for String {
    fn capitalize_untrimmed(self) -> (r: String) {
        capitalize_untrimmed_chars(self.as_str())
    }
}

impl CapitalizeUntrimmed for &str {
    fn capitalize_untrimmed(self) -> (r: String) {
        capitalize_untrimmed_chars(self)
    }
}

fn capitalize_untrimmed_chars(s: &str) -> (r: String)
    ensures
        r@ == capitalized_untrimmed(s@),
{
    let n = s.unicode_len();
    if n == 0 {
        return String::new();
    }
    let mut i: usize = 0;
    while i < n && s.get_char(i).is_whitespace()
        invariant
            i <= n,
            n == s@.len(),
            forall|t: int| 0 <= t < i ==> is_whitespace_char(s@[t]),
        decreases n - i,
    {
        i = i + 1;
    }
    proof {
        lemma_first_non_ws_idx_from_scan(s@, i as int);
    }
    let k: usize = if i < n {
        i + 1
    } else {
        1
    };
    assert(k as int == untrimmed_prefix_len(s@));
    let mut out = String::new();
    let mut j: usize = 0;
    while j < k
        invariant
            j <= k <= n,
            n == s@.len(),
            out@ == upper_seq(s@.subrange(0, j as int)),
        decreases k - j,
    {
        let up = crate::unicode::char_to_upper(s.get_char(j));
        out.append(up.as_str());
        proof {
            lemma_upper_seq_push(s@.subrange(0, j as int), s@[j as int]);
            assert(s@.subrange(0, j as int).push(s@[j as int]) =~= s@.subrange(0, j as int + 1));
        }
        j = j + 1;
    }
    out.append(s.substring_char(k, n));
    assert(s@.subrange(0, k as int) =~= s@.subrange(0, untrimmed_prefix_len(s@)));
    out
}

/// Law: `capitalize` preserves every character after the capitalized
/// prefix. The result is the uppercase mapping of the first character
/// followed by exactly the characters of the input from position 1 on.
pub proof fn lemma_capitalize_preserves_tail(s: Seq<char>)
    requires
        s.len() > 0,
    ensures
        capitalized(s).len() == upper_of(s[0]).len() + s.len() - 1,
        forall|i: int|
            1 <= i < s.len() ==> capitalized(s)[upper_of(s[0]).len() + i - 1] == #[trigger] s[i],
{
}

/// Law: `capitalize_untrimmed` preserves every character after the
/// capitalized prefix. The result is the uppercase mapping of the prefix
/// followed by exactly the characters of the input from the end of that
/// prefix on.
pub proof fn lemma_capitalize_untrimmed_preserves_tail(s: Seq<char>)
    requires
        s.len() > 0,
    ensures
        1 <= untrimmed_prefix_len(s) <= s.len(),
        capitalized_untrimmed(s).len() == upper_seq(s.subrange(0, untrimmed_prefix_len(s))).len()
            + s.len() - untrimmed_prefix_len(s),
        forall|i: int|
            untrimmed_prefix_len(s) <= i < s.len() ==> capitalized_untrimmed(s)[upper_seq(
                s.subrange(0, untrimmed_prefix_len(s)),
            ).len() + i - untrimmed_prefix_len(s)] == #[trigger] s[i],
{
    lemma_first_non_ws_idx_bounds(s);
}

} // verus!
