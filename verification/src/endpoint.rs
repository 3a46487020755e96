//! The environment-facing decisions of the tool, as pure functions: which
//! status endpoint to query, which deployment ids are well-formed, and
//! when the version check should announce an update. Reading the
//! environment, flags and the network stays outside; the values read are
//! passed in explicitly.

use vstd::prelude::*;
use vstd::string::{StrSliceExecFns, StringExecFns};

verus! {

/// The character sequence ends in the given suffix.
pub open spec fn ends_with(s: Seq<char>, suffix: Seq<char>) -> bool {
    s.len() >= suffix.len() && s.subrange(s.len() - suffix.len(), s.len() as int) == suffix
}

/// A configured endpoint normalized to end in the status path: kept as is
/// when it already does, completed with "status" after a trailing slash,
/// and with "/status" otherwise.
pub open spec fn normalized_status_url(u: Seq<char>) -> Seq<char> {
    if ends_with(u, "/status"@) {
        u
    } else if u.len() > 0 && u[u.len() - 1] == '/' {
        u + "status"@
    } else {
        u + "/status"@
    }
}

/// The view of an optional configured endpoint.
pub open spec fn opt_str_view(o: Option<String>) -> Option<Seq<char>> {
    match o {
        Some(s) => Some(s@),
        None => None,
    }
}

/// The endpoint the tool queries: the local graph-node URL under the
/// local flag; else the configured URL, normalized; else the default
/// public endpoint, which already ends in the status path.
pub open spec fn resolved_status_url(local: bool, configured: Option<Seq<char>>) -> Seq<char> {
    if local {
        "http://localhost:8030/graphql"@
    } else {
        match configured {
            Some(u) => normalized_status_url(u),
            None => "https://indexer.upgrade.thegraph.com/status"@,
        }
    }
}

/// Tests whether the text ends in the pattern. `n` and `m` are the
/// character lengths of `s` and `pat`.
fn str_ends_with(s: &str, n: usize, pat: &str, m: usize) -> (b: bool)
    requires
        n == s@.len(),
        m == pat@.len(),
    ensures
        b == ends_with(s@, pat@),
{
    if m > n {
        return false;
    }
    let off: usize = n - m;
    let mut k: usize = 0;
    while k < m
        invariant
            n == s@.len(),
            m == pat@.len(),
            m <= n,
            off == n - m,
            k <= m,
            forall|t: int| 0 <= t < k ==> s@[off + t] == pat@[t],
        decreases m - k,
    {
        if s.get_char(off + k) != pat.get_char(k) {
            proof {
                assert(s@.subrange(off as int, n as int)[k as int] == s@[off + k]);
            }
            return false;
        }
        k = k + 1;
    }
    proof {
        assert(s@.subrange(off as int, n as int) =~= pat@);
    }
    true
}

/// Resolves the status endpoint from the local flag and the configured
/// URL, if one was provided. The caller reads the configuration source;
/// this decision is pure.
pub fn resolve_status_url(local: bool, configured: Option<String>) -> (r: String)
    ensures
        r@ == resolved_status_url(local, opt_str_view(configured)),
{
    if local {
        return String::from_str("http://localhost:8030/graphql");
    }
    match configured {
        None => String::from_str("https://indexer.upgrade.thegraph.com/status"),
        Some(u) => {
            let mut u = u;
            let n = u.as_str().unicode_len();
            proof {
                reveal_strlit("/status");
                reveal_strlit("status");
            }
            if str_ends_with(u.as_str(), n, "/status", 7) {
                u
            } else {
                let mut trailing_slash = false;
                if n > 0 {
                    trailing_slash = u.as_str().get_char(n - 1) == '/';
                }
                if trailing_slash {
                    u.append("status");
                } else {
                    u.append("/status");
                }
                u
            }
        },
    }
}

/// The fixed-length content-address form of a deployment id: 46
/// characters opening with the prefix "Qm".
pub open spec fn valid_deployment_id(s: Seq<char>) -> bool {
    s.len() == 46 && s[0] == 'Q' && s[1] == 'm'
}

/// Accepts a candidate deployment id exactly when it has the fixed
/// content-address form.
pub fn is_valid_deployment_id(id: &str) -> (b: bool)
    ensures
        b == valid_deployment_id(id@),
{
    let n = id.unicode_len();
    if n != 46 {
        return false;
    }
    id.get_char(0) == 'Q' && id.get_char(1) == 'm'
}

/// Decides whether the version check should announce an update: exactly
/// when the published version differs from the running one.
pub fn update_available(current_version: &String, latest_version: &String) -> (b: bool)
    ensures
        b == (current_version@ != latest_version@),
{
    !current_version.eq(latest_version)
}

} // verus!
