//! Manifest-facts extraction: resolving the start block and detecting a
//! graft from the raw manifest text.
//!
//! The grammar recognised here is the manifest's own: a `startBlock:`
//! declaration is the key followed by optional whitespace and a decimal
//! run; a graft is a `graft:` key, a whitespace run holding a line break,
//! a `base:` key with a whitespace-delimited token, and a later `block:`
//! key with a decimal run. Whitespace means space, tab, carriage return or
//! line feed; digits are the ASCII digits.

use crate::numbers::{dec_digits, digits_val, is_digit_char, u64_to_string};
use vstd::prelude::*;
use vstd::string::{StrSliceExecFns, StringExecFns};

verus! {

/// The whitespace characters the manifest grammar recognises.
pub open spec fn is_space_char(c: char) -> bool {
    c == ' ' || c == '\t' || c == '\r' || c == '\n'
}

/// Index of the first character at or after `i` that is not whitespace.
pub open spec fn skip_spaces(s: Seq<char>, i: int) -> int
    decreases s.len() - i,
{
    if 0 <= i && i < s.len() && is_space_char(s[i]) {
        skip_spaces(s, i + 1)
    } else {
        i
    }
}

/// Index of the first character at or after `i` that is not a digit.
pub open spec fn skip_digits(s: Seq<char>, i: int) -> int
    decreases s.len() - i,
{
    if 0 <= i && i < s.len() && is_digit_char(s[i]) {
        skip_digits(s, i + 1)
    } else {
        i
    }
}

/// Index of the first whitespace character at or after `i`, or the end.
pub open spec fn skip_nonspaces(s: Seq<char>, i: int) -> int
    decreases s.len() - i,
{
    if 0 <= i && i < s.len() && !is_space_char(s[i]) {
        skip_nonspaces(s, i + 1)
    } else {
        i
    }
}

/// Some character in `[a, b)` is a line feed.
pub open spec fn contains_newline(s: Seq<char>, a: int, b: int) -> bool {
    exists|k: int| a <= k < b && s[k] == '\n'
}

/// The literal `lit` occurs in `s` starting at index `i`.
pub open spec fn has_lit_at(s: Seq<char>, i: int, lit: Seq<char>) -> bool {
    0 <= i && i + lit.len() <= s.len() && (forall|k: int|
        0 <= k < lit.len() ==> s[i + k] == lit[k])
}

/// `skip_spaces` lands on the first index whose prefix from `i` is all
/// whitespace and which is the end or holds a non-whitespace character.
proof fn lemma_skip_spaces_at(s: Seq<char>, i: int, j: int)
    requires
        0 <= i <= j <= s.len(),
        forall|k: int| i <= k < j ==> is_space_char(s[k]),
        j == s.len() || !is_space_char(s[j]),
    ensures
        skip_spaces(s, i) == j,
    decreases j - i,
{
    if i < j {
        lemma_skip_spaces_at(s, i + 1, j);
    }
}

/// The digit analogue of `lemma_skip_spaces_at`.
proof fn lemma_skip_digits_at(s: Seq<char>, i: int, j: int)
    requires
        0 <= i <= j <= s.len(),
        forall|k: int| i <= k < j ==> is_digit_char(s[k]),
        j == s.len() || !is_digit_char(s[j]),
    ensures
        skip_digits(s, i) == j,
    decreases j - i,
{
    if i < j {
        lemma_skip_digits_at(s, i + 1, j);
    }
}

/// The non-whitespace analogue of `lemma_skip_spaces_at`.
proof fn lemma_skip_nonspaces_at(s: Seq<char>, i: int, j: int)
    requires
        0 <= i <= j <= s.len(),
        forall|k: int| i <= k < j ==> !is_space_char(s[k]),
        j == s.len() || is_space_char(s[j]),
    ensures
        skip_nonspaces(s, i) == j,
    decreases j - i,
{
    if i < j {
        lemma_skip_nonspaces_at(s, i + 1, j);
    }
}

/// Tests whether the pattern occurs at index `i`. `n` and `m` are the
/// character lengths of `s` and `pat`.
fn lit_matches_at(s: &str, n: usize, i: usize, pat: &str, m: usize) -> (b: bool)
    requires
        n == s@.len(),
        m == pat@.len(),
    ensures
        b == has_lit_at(s@, i as int, pat@),
{
    if i > n || m > n - i {
        return false;
    }
    let mut k: usize = 0;
    while k < m
        invariant
            n == s@.len(),
            m == pat@.len(),
            i + m <= n,
            k <= m,
            forall|t: int| 0 <= t < k ==> s@[i + t] == pat@[t],
        decreases m - k,
    {
        if s.get_char(i + k) != pat.get_char(k) {
            return false;
        }
        k = k + 1;
    }
    true
}

/// Walks past whitespace from `i`; also reports whether the run crossed a
/// line feed.
fn skip_spaces_from(s: &str, n: usize, i: usize) -> (r: (usize, bool))
    requires
        n == s@.len(),
        i <= n,
    ensures
        r.0 as int == skip_spaces(s@, i as int),
        i <= r.0 <= n,
        r.1 == contains_newline(s@, i as int, r.0 as int),
{
    let mut j: usize = i;
    let mut saw_newline: bool = false;
    let mut done: bool = false;
    while !done
        invariant
            n == s@.len(),
            i <= j <= n,
            forall|k: int| i <= k < j ==> is_space_char(s@[k]),
            saw_newline == contains_newline(s@, i as int, j as int),
            done ==> j == n || !is_space_char(s@[j as int]),
        decreases n - j + if done {
            0int
        } else {
            1int
        },
    {
        if j < n {
            let c = s.get_char(j);
            if c == ' ' || c == '\t' || c == '\r' || c == '\n' {
                if c == '\n' {
                    saw_newline = true;
                }
                proof {
                    if !saw_newline {
                        assert(forall|k: int|
                            i <= k < j + 1 ==> s@[k] != '\n') by {
                            assert(s@[j as int] != '\n');
                        }
                    }
                }
                j = j + 1;
            } else {
                done = true;
            }
        } else {
            done = true;
        }
    }
    proof {
        lemma_skip_spaces_at(s@, i as int, j as int);
    }
    (j, saw_newline)
}

/// Walks past non-whitespace from `i`.
fn skip_nonspaces_from(s: &str, n: usize, i: usize) -> (r: usize)
    requires
        n == s@.len(),
        i <= n,
    ensures
        r as int == skip_nonspaces(s@, i as int),
        i <= r <= n,
{
    let mut j: usize = i;
    let mut done: bool = false;
    while !done
        invariant
            n == s@.len(),
            i <= j <= n,
            forall|k: int| i <= k < j ==> !is_space_char(s@[k]),
            done ==> j == n || is_space_char(s@[j as int]),
        decreases n - j + if done {
            0int
        } else {
            1int
        },
    {
        if j < n {
            let c = s.get_char(j);
            if c == ' ' || c == '\t' || c == '\r' || c == '\n' {
                done = true;
            } else {
                j = j + 1;
            }
        } else {
            done = true;
        }
    }
    proof {
        lemma_skip_nonspaces_at(s@, i as int, j as int);
    }
    j
}

/// Walks past digits from `i` and accumulates their value; the value is
/// reported only when it fits an unsigned 64-bit integer.
fn scan_digits_from(s: &str, n: usize, i: usize) -> (r: (usize, Option<u64>))
    requires
        n == s@.len(),
        i <= n,
    ensures
        r.0 as int == skip_digits(s@, i as int),
        i <= r.0 <= n,
        match r.1 {
            Some(v) => v as int == digits_val(s@.subrange(i as int, r.0 as int)) && digits_val(
                s@.subrange(i as int, r.0 as int),
            ) <= u64::MAX,
            None => digits_val(s@.subrange(i as int, r.0 as int)) > u64::MAX,
        },
{
    let mut j: usize = i;
    let mut acc: u64 = 0;
    let mut overflow: bool = false;
    let mut done: bool = false;
    while !done
        invariant
            n == s@.len(),
            i <= j <= n,
            forall|k: int| i <= k < j ==> is_digit_char(s@[k]),
            !overflow ==> acc == digits_val(s@.subrange(i as int, j as int)),
            overflow ==> digits_val(s@.subrange(i as int, j as int)) > u64::MAX,
            done ==> j == n || !is_digit_char(s@[j as int]),
        decreases n - j + if done {
            0int
        } else {
            1int
        },
    {
        if j < n {
            let c = s.get_char(j);
            let cv = c as u32;
            if 48 <= cv && cv <= 57 {
                let d: u64 = (cv - 48) as u64;
                proof {
                    assert(s@.subrange(i as int, j + 1).drop_last() =~= s@.subrange(
                        i as int,
                        j as int,
                    ));
                    assert(digits_val(s@.subrange(i as int, j + 1)) == digits_val(
                        s@.subrange(i as int, j as int),
                    ) * 10 + d);
                }
                if !overflow {
                    match acc.checked_mul(10) {
                        Some(m) => match m.checked_add(d) {
                            Some(v) => {
                                acc = v;
                            },
                            None => {
                                overflow = true;
                            },
                        },
                        None => {
                            overflow = true;
                        },
                    }
                }
                j = j + 1;
            } else {
                done = true;
            }
        } else {
            done = true;
        }
    }
    proof {
        lemma_skip_digits_at(s@, i as int, j as int);
    }
    if overflow {
        (j, None)
    } else {
        (j, Some(acc))
    }
}

/// The characters of the start-block key.
pub open spec fn start_block_key() -> Seq<char> {
    seq!['s', 't', 'a', 'r', 't', 'B', 'l', 'o', 'c', 'k', ':']
}

/// A start-block declaration occurs at `i`: the key, optional whitespace,
/// then at least one digit.
pub open spec fn start_block_match_at(s: Seq<char>, i: int) -> bool {
    has_lit_at(s, i, start_block_key()) && {
        let j = skip_spaces(s, i + 11);
        j < s.len() && is_digit_char(s[j])
    }
}

/// The value declared at `i`, when a declaration occurs there and its
/// digit run fits an unsigned 64-bit integer; a run too large for that
/// range is discarded as malformed rather than aborting extraction.
pub open spec fn start_block_candidate_at(s: Seq<char>, i: int) -> Option<u64> {
    if start_block_match_at(s, i) {
        let j = skip_spaces(s, i + 11);
        let v = digits_val(s.subrange(j, skip_digits(s, j)));
        if v <= u64::MAX {
            Some(v as u64)
        } else {
            None
        }
    } else {
        None
    }
}

/// The smaller of two optional values; absence loses to any value.
pub open spec fn min_u64_opt(a: Option<u64>, b: Option<u64>) -> Option<u64> {
    match (a, b) {
        (Option::None, Option::None) => Option::None,
        (Option::None, Option::Some(y)) => Option::Some(y),
        (Option::Some(x), Option::None) => Option::Some(x),
        (Option::Some(x), Option::Some(y)) => if x <= y {
            Option::Some(x)
        } else {
            Option::Some(y)
        },
    }
}

/// The minimum over all start-block values declared at or after `i`.
pub open spec fn min_start_block_from(s: Seq<char>, i: int) -> Option<u64>
    decreases s.len() - i,
{
    if 0 <= i && i < s.len() {
        min_u64_opt(start_block_candidate_at(s, i), min_start_block_from(s, i + 1))
    } else {
        None
    }
}

/// The start block a manifest resolves to: the minimum of all declared
/// start blocks, or zero (genesis) when none is declared.
pub open spec fn manifest_start_block(s: Seq<char>) -> u64 {
    match min_start_block_from(s, 0) {
        Some(v) => v,
        None => 0,
    }
}

/// Taking minima is associative over optional values.
proof fn lemma_min_u64_opt_assoc(a: Option<u64>, b: Option<u64>, c: Option<u64>)
    ensures
        min_u64_opt(min_u64_opt(a, b), c) == min_u64_opt(a, min_u64_opt(b, c)),
{
}

/// Scans the whole text for start-block declarations and returns the
/// smallest declared value, if any declaration exists.
fn scan_min_start_block(s: &str) -> (r: Option<u64>)
    ensures
        r == min_start_block_from(s@, 0),
{
    let n = s.unicode_len();
    let key = "startBlock:";
    proof {
        reveal_strlit("startBlock:");
        assert(key@ =~= start_block_key());
    }
    let mut best: Option<u64> = None;
    let mut i: usize = 0;
    while i < n
        invariant
            n == s@.len(),
            i <= n,
            key@ == start_block_key(),
            min_u64_opt(best, min_start_block_from(s@, i as int)) == min_start_block_from(s@, 0),
        decreases n - i,
    {
        let cand: Option<u64>;
        if lit_matches_at(s, n, i, key, 11) {
            let (j, _) = skip_spaces_from(s, n, i + 11);
            let mut is_digit = false;
            if j < n {
                let cv = s.get_char(j) as u32;
                is_digit = 48 <= cv && cv <= 57;
            }
            if is_digit {
                let scanned = scan_digits_from(s, n, j);
                cand = scanned.1;
            } else {
                cand = None;
            }
        } else {
            cand = None;
        }
        proof {
            assert(cand == start_block_candidate_at(s@, i as int));
        }
        let next: Option<u64> = match (best, cand) {
            (None, c) => c,
            (Some(b), None) => Some(b),
            (Some(b), Some(c)) => if c < b {
                Some(c)
            } else {
                Some(b)
            },
        };
        proof {
            assert(next == min_u64_opt(best, cand));
            lemma_min_u64_opt_assoc(best, cand, min_start_block_from(s@, i + 1));
        }
        best = next;
        i = i + 1;
    }
    best
}

/// Resolves the start block of a manifest: the minimum of every declared
/// `startBlock:` value, rendered in decimal, or "0" when the manifest
/// declares none (such manifests are valid and imply genesis).
pub fn get_start_block(manifest: &String) -> (r: String)
    ensures
        r@ == dec_digits(manifest_start_block(manifest@) as int),
{
    let v: u64 = match scan_min_start_block(manifest.as_str()) {
        Some(v) => v,
        None => 0,
    };
    u64_to_string(v)
}

/// The resolved minimum really is the minimum: it is no larger than any
/// declared value, it is itself a declared value when any exists, and it
/// falls back to zero when none exists.
pub proof fn lemma_start_block_is_minimum(s: Seq<char>)
    ensures
        forall|i: int|
            (#[trigger] start_block_candidate_at(s, i)) is Some ==> manifest_start_block(s)
                <= start_block_candidate_at(s, i)->Some_0,
        (exists|i: int| start_block_candidate_at(s, i) is Some) ==> exists|i: int|
            start_block_candidate_at(s, i) == Some(manifest_start_block(s)),
        (forall|i: int| start_block_candidate_at(s, i) is None) ==> manifest_start_block(s) == 0,
{
    lemma_min_from_is_minimum(s, 0);
    assert forall|i: int|
        (#[trigger] start_block_candidate_at(s, i)) is Some
        implies manifest_start_block(s) <= start_block_candidate_at(s, i)->Some_0 by {
        assert(i >= 0) by {
            if i < 0 {
                assert(!has_lit_at(s, i, start_block_key()));
            }
        }
        assert(start_block_candidate_at(s, i) == Some(start_block_candidate_at(s, i)->Some_0));
    }
    if exists|i: int| start_block_candidate_at(s, i) is Some {
        let i = choose|i: int| start_block_candidate_at(s, i) is Some;
        let v = start_block_candidate_at(s, i)->Some_0;
        assert(start_block_candidate_at(s, i) == Some(v));
        assert(i >= 0) by {
            if i < 0 {
                assert(!has_lit_at(s, i, start_block_key()));
            }
        }
        assert(min_start_block_from(s, 0) is Some);
    }
}

/// The scan from `i` bounds every candidate at or after `i` from below and
/// attains one of them.
proof fn lemma_min_from_is_minimum(s: Seq<char>, i: int)
    requires
        0 <= i,
    ensures
        forall|k: int|
            i <= k && (#[trigger] start_block_candidate_at(s, k)) is Some
                ==> min_start_block_from(s, i) is Some && min_start_block_from(s, i)->Some_0
                <= start_block_candidate_at(s, k)->Some_0,
        min_start_block_from(s, i) is Some ==> exists|k: int|
            i <= k && start_block_candidate_at(s, k) == Some(min_start_block_from(s, i)->Some_0),
    decreases s.len() - i,
{
    if i < s.len() {
        lemma_min_from_is_minimum(s, i + 1);
        if min_start_block_from(s, i) is Some {
            let m = min_start_block_from(s, i)->Some_0;
            if start_block_candidate_at(s, i) == Some(m) {
                assert(exists|k: int| i <= k && start_block_candidate_at(s, k) == Some(m));
            } else {
                assert(min_start_block_from(s, i + 1) == Some(m));
            }
        }
    } else {
        assert forall|k: int|
            i <= k && (#[trigger] start_block_candidate_at(s, k)) is Some
            implies false by {
            assert(!has_lit_at(s, k, start_block_key()));
        }
    }
}

/// The characters of the graft key.
pub open spec fn graft_key() -> Seq<char> {
    seq!['g', 'r', 'a', 'f', 't', ':']
}

/// The characters of the graft-base key.
pub open spec fn base_key() -> Seq<char> {
    seq!['b', 'a', 's', 'e', ':']
}

/// The characters of the graft-block key.
pub open spec fn block_key() -> Seq<char> {
    seq!['b', 'l', 'o', 'c', 'k', ':']
}

/// A graft base occurs at `i`: the graft key, a whitespace run that
/// crosses a line break, the base key, then optional whitespace and at
/// least one non-whitespace character opening the base token.
pub open spec fn graft_base_match_at(s: Seq<char>, i: int) -> bool {
    has_lit_at(s, i, graft_key()) && {
        let j = skip_spaces(s, i + 6);
        contains_newline(s, i + 6, j) && has_lit_at(s, j, base_key()) && skip_spaces(s, j + 5)
            < s.len()
    }
}

/// Where the base token of a graft base matched at `i` starts.
pub open spec fn graft_base_token_start(s: Seq<char>, i: int) -> int {
    skip_spaces(s, skip_spaces(s, i + 6) + 5)
}

/// Where the base token of a graft base matched at `i` ends.
pub open spec fn graft_base_token_end(s: Seq<char>, i: int) -> int {
    skip_nonspaces(s, graft_base_token_start(s, i))
}

/// The first index at or after `i` where a graft base occurs.
pub open spec fn first_graft_base_from(s: Seq<char>, i: int) -> Option<int>
    decreases s.len() - i,
{
    if 0 <= i && i < s.len() {
        if graft_base_match_at(s, i) {
            Some(i)
        } else {
            first_graft_base_from(s, i + 1)
        }
    } else {
        None
    }
}

/// A graft block occurs at `i`: the block key, optional whitespace, then
/// at least one digit.
pub open spec fn block_match_at(s: Seq<char>, i: int) -> bool {
    has_lit_at(s, i, block_key()) && {
        let j = skip_spaces(s, i + 6);
        j < s.len() && is_digit_char(s[j])
    }
}

/// The value of the digit run of a graft block matched at `i`.
pub open spec fn block_value_at(s: Seq<char>, i: int) -> int {
    let j = skip_spaces(s, i + 6);
    digits_val(s.subrange(j, skip_digits(s, j)))
}

/// The first index at or after `i` where a graft block occurs.
pub open spec fn first_block_from(s: Seq<char>, i: int) -> Option<int>
    decreases s.len() - i,
{
    if i < s.len() {
        if 0 <= i && block_match_at(s, i) {
            Some(i)
        } else {
            first_block_from(s, i + 1)
        }
    } else {
        None
    }
}

/// The graft a manifest declares, if any: the base token of the first
/// graft base, paired with the value of the first graft block after that
/// token. Grafting is all-or-nothing: with either part absent, or with a
/// block value too large for an unsigned 64-bit integer, no graft is
/// reported.
pub open spec fn manifest_graft(s: Seq<char>) -> Option<(Seq<char>, u64)> {
    match first_graft_base_from(s, 0) {
        None => None,
        Some(i) => {
            let base = s.subrange(graft_base_token_start(s, i), graft_base_token_end(s, i));
            match first_block_from(s, graft_base_token_end(s, i)) {
                None => None,
                Some(b) => {
                    let v = block_value_at(s, b);
                    if v <= u64::MAX {
                        Some((base, v as u64))
                    } else {
                        None
                    }
                },
            }
        },
    }
}

/// The view of an extracted graft pair.
pub open spec fn graft_view(g: Option<(String, u64)>) -> Option<(Seq<char>, u64)> {
    match g {
        None => None,
        Some(t) => Some((t.0@, t.1)),
    }
}

/// An index the graft-base search reports does match a graft base.
proof fn lemma_first_graft_base_found(s: Seq<char>, i: int, r: int)
    requires
        0 <= i,
        first_graft_base_from(s, i) == Some(r),
    ensures
        graft_base_match_at(s, r),
        i <= r < s.len(),
    decreases s.len() - i,
{
    if i < s.len() && !graft_base_match_at(s, i) {
        lemma_first_graft_base_found(s, i + 1, r);
    }
}

/// Finds the first graft base in the text.
fn find_graft_base(s: &str, n: usize) -> (r: Option<usize>)
    requires
        n == s@.len(),
    ensures
        match r {
            Some(i) => first_graft_base_from(s@, 0) == Some(i as int),
            None => first_graft_base_from(s@, 0) is None,
        },
{
    let graft_pat = "graft:";
    let base_pat = "base:";
    proof {
        reveal_strlit("graft:");
        reveal_strlit("base:");
        assert(graft_pat@ =~= graft_key());
        assert(base_pat@ =~= base_key());
    }
    let mut i: usize = 0;
    while i < n
        invariant
            n == s@.len(),
            i <= n,
            graft_pat@ == graft_key(),
            base_pat@ == base_key(),
            first_graft_base_from(s@, 0) == first_graft_base_from(s@, i as int),
        decreases n - i,
    {
        let mut matched = false;
        if lit_matches_at(s, n, i, graft_pat, 6) {
            let (j, crossed) = skip_spaces_from(s, n, i + 6);
            if crossed && lit_matches_at(s, n, j, base_pat, 5) {
                let (k, _) = skip_spaces_from(s, n, j + 5);
                if k < n {
                    matched = true;
                }
            }
        }
        proof {
            assert(matched == graft_base_match_at(s@, i as int));
        }
        if matched {
            return Some(i);
        }
        i = i + 1;
    }
    None
}

/// Finds the first graft block at or after `start` and scans its value.
/// The outer option reports whether a block occurs at all; the inner one
/// is absent when the matched digit run does not fit an unsigned 64-bit
/// integer.
fn find_block_value_from(s: &str, n: usize, start: usize) -> (r: Option<Option<u64>>)
    requires
        n == s@.len(),
        start <= n,
    ensures
        match r {
            Some(v) => first_block_from(s@, start as int) is Some && {
                let b = first_block_from(s@, start as int)->Some_0;
                match v {
                    Some(u) => block_value_at(s@, b) == u && block_value_at(s@, b) <= u64::MAX,
                    None => block_value_at(s@, b) > u64::MAX,
                }
            },
            None => first_block_from(s@, start as int) is None,
        },
{
    let block_pat = "block:";
    proof {
        reveal_strlit("block:");
        assert(block_pat@ =~= block_key());
    }
    let mut i: usize = start;
    while i < n
        invariant
            n == s@.len(),
            start <= i <= n,
            block_pat@ == block_key(),
            first_block_from(s@, start as int) == first_block_from(s@, i as int),
        decreases n - i,
    {
        let mut matched = false;
        let mut j: usize = 0;
        if lit_matches_at(s, n, i, block_pat, 6) {
            let (j2, _) = skip_spaces_from(s, n, i + 6);
            j = j2;
            if j < n {
                let cv = s.get_char(j) as u32;
                if 48 <= cv && cv <= 57 {
                    matched = true;
                }
            }
        }
        proof {
            assert(matched == block_match_at(s@, i as int));
        }
        if matched {
            let scanned = scan_digits_from(s, n, j);
            proof {
                assert(first_block_from(s@, i as int) == Some(i as int));
            }
            return Some(scanned.1);
        }
        i = i + 1;
    }
    None
}

/// Extracts the graft declaration, if the manifest holds one: the base
/// token and the block value, both or neither.
pub fn get_graft_values(yaml_str: &str) -> (r: Option<(String, u64)>)
    ensures
        graft_view(r) == manifest_graft(yaml_str@),
{
    let s = yaml_str;
    let n = s.unicode_len();
    match find_graft_base(s, n) {
        None => None,
        Some(i) => {
            proof {
                lemma_first_graft_base_found(s@, 0, i as int);
            }
            let (j, _) = skip_spaces_from(s, n, i + 6);
            let (k, _) = skip_spaces_from(s, n, j + 5);
            let e = skip_nonspaces_from(s, n, k);
            proof {
                assert(k as int == graft_base_token_start(s@, i as int));
                assert(e as int == graft_base_token_end(s@, i as int));
            }
            let base: String = s.substring_char(k, e).to_owned();
            match find_block_value_from(s, n, e) {
                None => None,
                Some(None) => None,
                Some(Some(v)) => Some((base, v)),
            }
        },
    }
}

/// The facts derived from one manifest document: the resolved start block
/// and the graft declaration, if one is present.
#[derive(Debug, PartialEq)]
pub struct ManifestFacts {
    pub start_block: u64,
    pub graft: Option<(String, u64)>,
}

/// Extracts every fact the report needs from the raw manifest text: the
/// minimum declared start block (zero when none is declared) and the
/// all-or-nothing graft declaration. Pure in its input; malformed numbers
/// inside a matched pattern discard that candidate, never the extraction.
pub fn extract(manifest_text: &str) -> (r: ManifestFacts)
    ensures
        r.start_block == manifest_start_block(manifest_text@),
        graft_view(r.graft) == manifest_graft(manifest_text@),
{
    let start_block: u64 = match scan_min_start_block(manifest_text) {
        Some(v) => v,
        None => 0,
    };
    let graft = get_graft_values(manifest_text);
    ManifestFacts { start_block, graft }
}

/// Graft extraction is all-or-nothing: a manifest with a graft base but no
/// graft block after its base token yields no graft, a manifest without a
/// graft base yields no graft, and a reported graft always has both parts.
pub proof fn lemma_graft_all_or_nothing(s: Seq<char>)
    ensures
        first_graft_base_from(s, 0) is None ==> manifest_graft(s) is None,
        first_graft_base_from(s, 0) is Some && first_block_from(
            s,
            graft_base_token_end(s, first_graft_base_from(s, 0)->Some_0),
        ) is None ==> manifest_graft(s) is None,
        manifest_graft(s) is Some ==> first_graft_base_from(s, 0) is Some && first_block_from(
            s,
            graft_base_token_end(s, first_graft_base_from(s, 0)->Some_0),
        ) is Some,
{
}

} // verus!
