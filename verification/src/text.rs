//! Text helpers for presentation: capitalisation of handler names.

use vstd::prelude::*;
use vstd::string::{StrSliceExecFns, StringExecFns};

verus! {

/// What uppercasing one character yields, as a character sequence.
pub uninterp spec fn upper_of(c: char) -> Seq<char>;

/// Relies on char::to_uppercase: yields the uppercase mapping of the
/// character as one or more characters, a function of the character alone.
#[verifier::external_body]
fn char_uppercase(c: char) -> (r: String)
    ensures
        r@ == upper_of(c),
        r@.len() >= 1,
{
    c.to_uppercase().collect()
}

/// A word with its first character mapped to uppercase and the rest kept;
/// the empty word stays empty.
pub open spec fn capitalized(w: Seq<char>) -> Seq<char> {
    if w.len() == 0 {
        Seq::empty()
    } else {
        upper_of(w[0]) + w.drop_first()
    }
}

/// Capitalizes the first character of a word, leaving the rest unchanged.
pub fn capitalize_first_letter(word: &String) -> (r: String)
    ensures
        r@ == capitalized(word@),
{
    let n = word.as_str().unicode_len();
    if n == 0 {
        let r = String::new();
        proof {
            assert(r@ =~= capitalized(word@));
        }
        return r;
    }
    let first = word.as_str().get_char(0);
    let rest = word.as_str().substring_char(1, n);
    let mut out = char_uppercase(first);
    out.append(rest);
    proof {
        assert(word@.subrange(1, n as int) =~= word@.drop_first());
        assert(out@ =~= capitalized(word@));
    }
    out
}

} // verus!
