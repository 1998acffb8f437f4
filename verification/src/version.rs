//! The version-literal validator.
//!
//! A version tag must be expressible as `MAJOR[.MINOR[.PATCH]]`, each
//! segment a non-empty run of decimal digits. Pre-release or build-metadata
//! segments and any numeric component beyond the third are rejected: the
//! `-enterprise` edition suffix is appended by this library itself and must
//! never collide with user-supplied text.

use vstd::prelude::*;
use vstd::string::StrSliceExecFns;

verus! {

/// A decimal digit character.
pub open spec fn is_digit(c: char) -> bool {
    '0' <= c && c <= '9'
}

/// How many dots `s` contains.
pub open spec fn count_dots(s: Seq<char>) -> nat
    decreases s.len(),
{
    if s.len() == 0 {
        0
    } else {
        count_dots(s.drop_last()) + if s.last() == '.' {
            1nat
        } else {
            0nat
        }
    }
}

/// A valid version literal: one to three dot-separated segments, each a
/// non-empty run of decimal digits and nothing else.
pub open spec fn valid_version(s: Seq<char>) -> bool {
    &&& s.len() > 0
    &&& forall|i: int| 0 <= i < s.len() ==> is_digit(#[trigger] s[i]) || s[i] == '.'
    &&& s[0] != '.'
    &&& s[s.len() - 1] != '.'
    &&& forall|i: int| 0 < i < s.len() ==> !(s[i - 1] == '.' && #[trigger] s[i] == '.')
    &&& count_dots(s) <= 2
}

proof fn lemma_count_dots_push(s: Seq<char>, c: char)
    ensures
        count_dots(s.push(c)) == count_dots(s) + if c == '.' {
            1nat
        } else {
            0nat
        },
{
    assert(s.push(c).drop_last() =~= s);
}

/// Decides whether `s` is a valid version literal.
pub fn validate_version(s: &str) -> (r: bool)
    ensures
        r == valid_version(s@),
{
    let len = s.unicode_len();
    if len == 0 {
        return false;
    }
    let mut dots: usize = 0;
    let mut i: usize = 0;
    while i < len
        invariant
            0 < len == s@.len(),
            i <= len,
            dots <= i,
            dots == count_dots(s@.subrange(0, i as int)),
            dots <= 2,
            forall|j: int| 0 <= j < i ==> is_digit(#[trigger] s@[j]) || s@[j] == '.',
            i > 0 ==> s@[0] != '.',
            forall|j: int| 0 < j < i ==> !(s@[j - 1] == '.' && #[trigger] s@[j] == '.'),
        decreases len - i,
    {
        let c = s.get_char(i);
        let c_is_dot = c == '.';
        if c_is_dot {
            if i == 0 {
                return false;
            }
            if s.get_char(i - 1) == '.' {
                return false;
            }
            if dots == 2 {
                proof {
                    lemma_count_dots_push(s@.subrange(0, i as int), c);
                    assert(s@.subrange(0, i as int).push(c) =~= s@.subrange(0, i as int + 1));
                    lemma_count_dots_prefix(s@, i as int + 1);
                }
                return false;
            }
            dots = dots + 1;
        } else if !('0' <= c && c <= '9') {
            return false;
        }
        proof {
            lemma_count_dots_push(s@.subrange(0, i as int), c);
            assert(s@.subrange(0, i as int).push(c) =~= s@.subrange(0, i as int + 1));
        }
        i = i + 1;
    }
    if s.get_char(len - 1) == '.' {
        return false;
    }
    proof {
        assert(s@.subrange(0, len as int) =~= s@);
    }
    true
}

/// Dots in a prefix never outnumber dots in the whole.
proof fn lemma_count_dots_prefix(s: Seq<char>, i: int)
    requires
        0 <= i <= s.len(),
    ensures
        count_dots(s.subrange(0, i)) <= count_dots(s),
    decreases s.len() - i,
{
    if i == s.len() {
        assert(s.subrange(0, i) =~= s);
    } else {
        lemma_count_dots_prefix(s, i + 1);
        assert(s.subrange(0, i + 1).drop_last() =~= s.subrange(0, i));
    }
}

} // verus!
