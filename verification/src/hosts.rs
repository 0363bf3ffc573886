//! Host allowlisting for outbound fetches.
//!
//! A session's `network_allowlist` gates every URL ingest.  An absent
//! allowlist denies all hosts, and so does an empty one; otherwise a host
//! is permitted exactly when it matches one of the listed entries,
//! compared case-insensitively (ASCII letters only) with no wildcards
//! and no subdomain inheritance.

use vstd::prelude::*;

verus! {

/// The code point used for comparing characters case-insensitively:
/// ASCII upper-case letters fold to their lower-case counterpart,
/// every other character stands for itself.
pub open spec fn ci_code(c: char) -> u32 {
    if 65 <= c as u32 && c as u32 <= 90 {
        (c as u32 + 32) as u32
    } else {
        c as u32
    }
}

/// Two character sequences are equal up to ASCII case.
pub open spec fn seq_eq_ci(a: Seq<char>, b: Seq<char>) -> bool {
    a.len() == b.len() && forall|i: int| 0 <= i < a.len() ==> ci_code(a[i]) == ci_code(b[i])
}

/// Some entry of `list` matches `host` up to ASCII case.
pub open spec fn in_allowlist(list: Seq<String>, host: Seq<char>) -> bool {
    exists|i: int| 0 <= i < list.len() && #[trigger] seq_eq_ci(list[i]@, host)
}

/// Whether `host` is permitted by `allowlist`: denied when the list is
/// absent, otherwise a case-insensitive exact match against any entry.
pub open spec fn spec_allowed_host(allowlist: Option<Seq<String>>, host: Seq<char>) -> bool {
    match allowlist {
        None => false,
        Some(list) => in_allowlist(list, host),
    }
}

/// The allowlist of an `Option<Vec<String>>`, as its spec-level shape.
pub open spec fn spec_allowlist(allowlist: &Option<Vec<String>>) -> Option<Seq<String>> {
    match *allowlist {
        None => None,
        Some(ref v) => Some(v@),
    }
}

/// Case-insensitive equality of two strings, ASCII letters folded.
pub fn str_eq_ci(a: &str, b: &str) -> (r: bool)
    ensures
        r == seq_eq_ci(a@, b@),
{
    let alen = a.unicode_len();
    let blen = b.unicode_len();
    if alen != blen {
        return false;
    }
    let mut i: usize = 0;
    while i < alen
        invariant
            alen == a@.len(),
            blen == b@.len(),
            alen == blen,
            0 <= i <= alen,
            forall|j: int| 0 <= j < i ==> ci_code(a@[j]) == ci_code(b@[j]),
        decreases alen - i,
    {
        let ca = a.get_char(i);
        let cb = b.get_char(i);
        let xa = ca as u32;
        let xb = cb as u32;
        let fa = if 65 <= xa && xa <= 90 { xa + 32 } else { xa };
        let fb = if 65 <= xb && xb <= 90 { xb + 32 } else { xb };
        if fa != fb {
            return false;
        }
        i = i + 1;
    }
    true
}

/// Decides whether `host` may be fetched under the given allowlist.
///
/// An absent allowlist denies every host, and so does an empty one.
pub fn is_allowed_host(allowlist: &Option<Vec<String>>, host: &str) -> (r: bool)
    ensures
        r == spec_allowed_host(spec_allowlist(allowlist), host@),
{
    match allowlist {
        None => false,
        Some(list) => {
            let mut i: usize = 0;
            let n = list.len();
            while i < n
                invariant
                    spec_allowlist(allowlist) == Some(list@),
                    n == list@.len(),
                    0 <= i <= n,
                    forall|j: int| 0 <= j < i ==> !seq_eq_ci(list@[j]@, host@),
                decreases n - i,
            {
                if str_eq_ci(list[i].as_str(), host) {
                    proof {
                        assert(in_allowlist(list@, host@)) by {
                            assert(seq_eq_ci(list@[i as int]@, host@));
                        }
                    }
                    return true;
                }
                i = i + 1;
            }
            false
        }
    }
}

/// An absent allowlist denies every host, and so does an empty one.
pub proof fn lemma_deny_by_default(host: Seq<char>, empty: Seq<String>)
    requires
        empty.len() == 0,
    ensures
        !spec_allowed_host(None, host),
        !spec_allowed_host(Some(empty), host),
{
}

} // verus!
