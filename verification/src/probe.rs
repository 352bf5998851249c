//! From what the evaluator wrote to the identifier of a stdenv.

use crate::nix::EvalOutcome;
use vstd::prelude::*;
use vstd::std_specs::iter::IteratorSpec;
use vstd::string::StringSliceAdditionalSpecFns;
use vstd::utf8::{decode_utf8, encode_utf8_decode_utf8, valid_utf8};

verus! {

/// The characters that count as white space: those with the Unicode
/// property `White_Space`.
pub open spec fn is_whitespace(c: char) -> bool {
    let n = c as u32;
    ||| 0x09 <= n <= 0x0D
    ||| n == 0x20
    ||| n == 0x85
    ||| n == 0xA0
    ||| n == 0x1680
    ||| 0x2000 <= n <= 0x200A
    ||| n == 0x2028
    ||| n == 0x2029
    ||| n == 0x202F
    ||| n == 0x205F
    ||| n == 0x3000
}

/// `s` without the white space it begins with.
pub open spec fn skip_leading_whitespace(s: Seq<char>) -> Seq<char>
    decreases s.len(),
{
    if s.len() > 0 && is_whitespace(s[0]) {
        skip_leading_whitespace(s.drop_first())
    } else {
        s
    }
}

/// `s` without the white space it ends with.
pub open spec fn drop_trailing_whitespace(s: Seq<char>) -> Seq<char>
    decreases s.len(),
{
    if s.len() > 0 && is_whitespace(s.last()) {
        drop_trailing_whitespace(s.drop_last())
    } else {
        s
    }
}

/// `s` without the white space around it.
pub open spec fn trimmed(s: Seq<char>) -> Seq<char> {
    drop_trailing_whitespace(skip_leading_whitespace(s))
}

/// Whether `c` is white space.
pub fn char_is_whitespace(c: char) -> (r: bool)
    ensures
        r == is_whitespace(c),
{
    let n: u32 = c as u32;
    (0x09 <= n && n <= 0x0D) || n == 0x20 || n == 0x85 || n == 0xA0 || n == 0x1680 || (0x2000 <= n
        && n <= 0x200A) || n == 0x2028 || n == 0x2029 || n == 0x202F || n == 0x205F || n == 0x3000
}

/// Whether `lo` and `hi` bound what is left of `s` once the white space
/// around it is cut off: only white space stands before `lo` and from `hi`
/// on, and what lies between them neither begins nor ends with any.
pub open spec fn bounds_trimmed(s: Seq<char>, lo: int, hi: int) -> bool {
    &&& 0 <= lo <= hi <= s.len()
    &&& forall|i: int| 0 <= i < lo ==> is_whitespace(#[trigger] s[i])
    &&& forall|i: int| hi <= i < s.len() ==> is_whitespace(#[trigger] s[i])
    &&& lo < hi ==> !is_whitespace(s[lo]) && !is_whitespace(s[hi - 1])
}

/// Where `lo` characters of white space stand before the first character
/// that is none, skipping the leading white space leaves what follows them.
proof fn lemma_skip_leading_whitespace(s: Seq<char>, lo: int)
    requires
        0 <= lo <= s.len(),
        forall|i: int| 0 <= i < lo ==> is_whitespace(#[trigger] s[i]),
        lo < s.len() ==> !is_whitespace(s[lo]),
    ensures
        skip_leading_whitespace(s) == s.subrange(lo, s.len() as int),
    decreases lo,
{
    if lo == 0 {
        assert(s.subrange(0, s.len() as int) =~= s);
    } else {
        let rest = s.drop_first();
        assert forall|i: int| 0 <= i < lo - 1 implies is_whitespace(#[trigger] rest[i]) by {
            assert(rest[i] == s[i + 1]);
        }
        lemma_skip_leading_whitespace(rest, lo - 1);
        assert(rest.subrange(lo - 1, rest.len() as int) =~= s.subrange(lo, s.len() as int));
    }
}

/// Where only white space stands from `hi` on, and none just before `hi`,
/// dropping the trailing white space leaves the first `hi` characters.
proof fn lemma_drop_trailing_whitespace(s: Seq<char>, hi: int)
    requires
        0 <= hi <= s.len(),
        forall|i: int| hi <= i < s.len() ==> is_whitespace(#[trigger] s[i]),
        0 < hi ==> !is_whitespace(s[hi - 1]),
    ensures
        drop_trailing_whitespace(s) == s.subrange(0, hi),
    decreases s.len() - hi,
{
    if hi == s.len() {
        assert(s.subrange(0, hi) =~= s);
    } else {
        let rest = s.drop_last();
        assert forall|i: int| hi <= i < rest.len() implies is_whitespace(#[trigger] rest[i]) by {
            assert(rest[i] == s[i]);
        }
        lemma_drop_trailing_whitespace(rest, hi);
        assert(rest.subrange(0, hi) =~= s.subrange(0, hi));
    }
}

/// The number of white space characters that `s` begins with.
proof fn leading_whitespace(s: Seq<char>) -> (lo: int)
    ensures
        0 <= lo <= s.len(),
        forall|i: int| 0 <= i < lo ==> is_whitespace(#[trigger] s[i]),
        lo < s.len() ==> !is_whitespace(s[lo]),
    decreases s.len(),
{
    if s.len() > 0 && is_whitespace(s[0]) {
        let rest = s.drop_first();
        let lo = leading_whitespace(rest);
        assert forall|i: int| 0 <= i < lo + 1 implies is_whitespace(#[trigger] s[i]) by {
            if i > 0 {
                assert(s[i] == rest[i - 1]);
            }
        }
        if lo + 1 < s.len() {
            assert(s[lo + 1] == rest[lo]);
        }
        lo + 1
    } else {
        0
    }
}

/// The length of `s` without the white space that it ends with.
proof fn before_trailing_whitespace(s: Seq<char>) -> (hi: int)
    ensures
        0 <= hi <= s.len(),
        forall|i: int| hi <= i < s.len() ==> is_whitespace(#[trigger] s[i]),
        0 < hi ==> !is_whitespace(s[hi - 1]),
    decreases s.len(),
{
    if s.len() > 0 && is_whitespace(s.last()) {
        let rest = s.drop_last();
        let hi = before_trailing_whitespace(rest);
        if 0 < hi {
            assert(s[hi - 1] == rest[hi - 1]);
        }
        assert forall|i: int| hi <= i < s.len() implies is_whitespace(#[trigger] s[i]) by {
            if i < rest.len() {
                assert(s[i] == rest[i]);
            }
        }
        hi
    } else {
        s.len() as int
    }
}

/// What lies between bounds of the trimmed part is the trimmed text.
pub proof fn lemma_trimmed_between(s: Seq<char>, lo: int, hi: int)
    requires
        bounds_trimmed(s, lo, hi),
    ensures
        trimmed(s) == s.subrange(lo, hi),
{
    if lo == hi {
        lemma_skip_leading_whitespace(s, s.len() as int);
        assert(s.subrange(s.len() as int, s.len() as int) =~= s.subrange(lo, hi));
    } else {
        lemma_skip_leading_whitespace(s, lo);
        let tail = s.subrange(lo, s.len() as int);
        assert forall|i: int| hi - lo <= i < tail.len() implies is_whitespace(
            #[trigger] tail[i],
        ) by {
            assert(tail[i] == s[i + lo]);
        }
        lemma_drop_trailing_whitespace(tail, hi - lo);
        assert(tail.subrange(0, hi - lo) =~= s.subrange(lo, hi));
    }
}

/// Every text has bounds of its trimmed part: trimming cuts white space
/// off both ends and nothing else.
pub proof fn lemma_trimmed_has_bounds(s: Seq<char>) -> (bounds: (int, int))
    ensures
        bounds_trimmed(s, bounds.0, bounds.1),
        trimmed(s) == s.subrange(bounds.0, bounds.1),
{
    let lo = leading_whitespace(s);
    let tail = s.subrange(lo, s.len() as int);
    let kept = before_trailing_whitespace(tail);
    let hi = lo + kept;
    if kept == 0 && lo < s.len() {
        assert(tail[0] == s[lo]);
    }
    if 0 < kept {
        assert(tail[kept - 1] == s[hi - 1]);
    }
    assert forall|i: int| hi <= i < s.len() implies is_whitespace(#[trigger] s[i]) by {
        assert(s[i] == tail[i - lo]);
    }
    lemma_trimmed_between(s, lo, hi);
    (lo, hi)
}

/// A trimmed text neither begins nor ends with white space, and trimming
/// it again changes nothing.
pub proof fn lemma_trimmed_is_trim(s: Seq<char>)
    ensures
        trimmed(s).len() > 0 ==> !is_whitespace(trimmed(s).first()) && !is_whitespace(
            trimmed(s).last(),
        ),
        trimmed(trimmed(s)) == trimmed(s),
{
    let (lo, hi) = lemma_trimmed_has_bounds(s);
    let t = trimmed(s);
    if t.len() > 0 {
        assert(t.first() == s[lo]);
        assert(t.last() == s[hi - 1]);
    }
    lemma_trimmed_between(t, 0, t.len() as int);
    assert(t.subrange(0, t.len() as int) =~= t);
}

/// The part of `s` between its leading and its trailing white space.
pub fn trim(s: &str) -> (r: &str)
    ensures
        r@ == trimmed(s@),
{
    let n: usize = s.unicode_len();
    let mut chars = s.chars();
    let mut i: usize = 0;
    let mut lo: usize = 0;
    let mut hi: usize = 0;
    let mut seen = false;
    loop
        invariant
            n == s@.len(),
            i <= n,
            chars.obeys_prophetic_iter_laws(),
            chars.remaining() == s@.subrange(i as int, n as int),
            !seen ==> lo == i && hi == i,
            seen ==> lo < hi <= i && !is_whitespace(s@[lo as int]) && !is_whitespace(
                s@[hi - 1],
            ),
            forall|j: int| 0 <= j < lo ==> is_whitespace(#[trigger] s@[j]),
            forall|j: int| hi <= j < i ==> is_whitespace(#[trigger] s@[j]),
        ensures
            i == n,
        decreases n - i,
    {
        match chars.next() {
            Some(c) => {
                assert(c == s@[i as int]);
                let blank = char_is_whitespace(c);
                i = i + 1;
                if !blank {
                    if !seen {
                        lo = i - 1;
                        seen = true;
                    }
                    hi = i;
                } else if !seen {
                    lo = i;
                    hi = i;
                }
            },
            None => {
                break ;
            },
        }
    }
    proof {
        lemma_trimmed_between(s@, lo as int, hi as int);
    }
    s.substring_char(lo, hi)
}

/// `std::str::from_utf8`: where the bytes are well-formed UTF-8, the text
/// that is made of these very bytes; where they are not, nothing.
#[verifier::external_body]
fn decode(bytes: &[u8]) -> (text: Option<&str>)
    ensures
        text is Some <==> valid_utf8(bytes@),
        text matches Some(t) ==> t.spec_bytes() == bytes@,
{
    match std::str::from_utf8(bytes) {
        Ok(text) => Some(text),
        Err(_) => None,
    }
}

/// The identifier that an outcome of the evaluator stands for: after a
/// success with well-formed output, the output without the white space
/// around it; in every other case none.
pub open spec fn identifier_of(outcome: EvalOutcome) -> Option<Seq<char>> {
    match outcome {
        EvalOutcome::Success(stdout) => if valid_utf8(stdout@) {
            Some(trimmed(decode_utf8(stdout@)))
        } else {
            None
        },
        EvalOutcome::Failure => None,
        EvalOutcome::TimedOut => None,
    }
}

/// An identifier read off an outcome has no white space around it.
pub proof fn lemma_identifier_is_trimmed(outcome: EvalOutcome)
    ensures
        identifier_of(outcome) matches Some(found) ==> trimmed(found) == found && (found.len() > 0
            ==> !is_whitespace(found.first()) && !is_whitespace(found.last())),
{
    if let EvalOutcome::Success(stdout) = outcome {
        lemma_trimmed_is_trim(decode_utf8(stdout@));
    }
}

/// Reads the identifier off an outcome of the evaluator.
pub fn identifier(outcome: &EvalOutcome) -> (found: Option<String>)
    ensures
        found.deep_view() == identifier_of(*outcome),
{
    match outcome {
        EvalOutcome::Success(stdout) => match decode(stdout.as_slice()) {
            Some(text) => {
                proof {
                    encode_utf8_decode_utf8(text@);
                }
                Some(trim(text).to_owned())
            },
            None => None,
        },
        EvalOutcome::Failure => None,
        EvalOutcome::TimedOut => None,
    }
}

} // verus!
