//! The path sandbox.
//!
//! A user-supplied relative path is admitted only when it provably lies
//! within the session's project root.  The check here is purely lexical:
//! the root and the candidate are broken into components, `.` and empty
//! components are dropped, `..` pops, and the normalized candidate must
//! keep the normalized root as a prefix.  Callers that touch the
//! filesystem follow this with a canonicalization step on the deepest
//! existing ancestor, so that symlinks cannot conceal an escape; that
//! step only ever narrows what is admitted here.

use vstd::prelude::*;

use crate::errors::ErrorKind;

verus! {

/// A path string is absolute when it starts with a separator.
pub open spec fn spec_is_absolute(s: Seq<char>) -> bool {
    s.len() > 0 && s[0] == '/'
}

/// One step of splitting `s` into components: `i` is the scan position,
/// `start` the beginning of the pending component, `acc` the components
/// already cut.  Empty components (repeated or trailing separators)
/// are dropped.
pub open spec fn split_scan(s: Seq<char>, i: int, start: int, acc: Seq<Seq<char>>) -> Seq<
    Seq<char>,
>
    decreases s.len() - i,
{
    if i < 0 || i >= s.len() {
        if 0 <= start < s.len() {
            acc.push(s.subrange(start, s.len() as int))
        } else {
            acc
        }
    } else if s[i] == '/' {
        if 0 <= start < i {
            split_scan(s, i + 1, i + 1, acc.push(s.subrange(start, i)))
        } else {
            split_scan(s, i + 1, i + 1, acc)
        }
    } else {
        split_scan(s, i + 1, start, acc)
    }
}

/// The non-empty components of a path string.
pub open spec fn path_components(s: Seq<char>) -> Seq<Seq<char>> {
    split_scan(s, 0, 0, Seq::empty())
}

/// One step of lexical normalization: `.` is dropped, `..` pops the
/// last component kept so far, anything else is kept.
pub open spec fn normalize_scan(comps: Seq<Seq<char>>, i: int, acc: Seq<Seq<char>>) -> Seq<
    Seq<char>,
>
    decreases comps.len() - i,
{
    if i < 0 || i >= comps.len() {
        acc
    } else if comps[i] == "."@ {
        normalize_scan(comps, i + 1, acc)
    } else if comps[i] == ".."@ {
        normalize_scan(comps, i + 1, if acc.len() > 0 { acc.drop_last() } else { acc })
    } else {
        normalize_scan(comps, i + 1, acc.push(comps[i]))
    }
}

/// Lexically normalized components: `.` collapsed and `..` applied,
/// without consulting the filesystem.
pub open spec fn normalize_components(comps: Seq<Seq<char>>) -> Seq<Seq<char>> {
    normalize_scan(comps, 0, Seq::empty())
}

/// `pre` is a component-wise prefix of `full`.
pub open spec fn prefix_of(pre: Seq<Seq<char>>, full: Seq<Seq<char>>) -> bool {
    pre.len() <= full.len() && forall|i: int| 0 <= i < pre.len() ==> full[i] == pre[i]
}

/// One step of reassembling components into an absolute path string.
pub open spec fn join_scan(comps: Seq<Seq<char>>, i: int, acc: Seq<char>) -> Seq<char>
    decreases comps.len() - i,
{
    if i < 0 || i >= comps.len() {
        acc
    } else {
        join_scan(comps, i + 1, acc + "/"@ + comps[i])
    }
}

/// The absolute path string for a normalized component list.
pub open spec fn join_components(comps: Seq<Seq<char>>) -> Seq<char> {
    if comps.len() == 0 {
        "/"@
    } else {
        join_scan(comps, 0, Seq::empty())
    }
}

/// The normalized components of the project root.
pub open spec fn spec_root_components(root: Seq<char>) -> Seq<Seq<char>> {
    normalize_components(path_components(root))
}

/// The normalized components the request resolves to: an absolute
/// request replaces the root, a relative one is appended to it, and
/// `..` may pop into (and past) the root's own components.
pub open spec fn spec_candidate(root: Seq<char>, rel: Seq<char>) -> Seq<Seq<char>> {
    if spec_is_absolute(rel) {
        normalize_components(path_components(rel))
    } else {
        normalize_components(path_components(root) + path_components(rel))
    }
}

/// What `resolve_under_root` returns: the reassembled candidate when it
/// stays under the root, and nothing otherwise.
pub open spec fn spec_resolved(root: Seq<char>, rel: Seq<char>) -> Option<Seq<char>> {
    if spec_is_absolute(root) && prefix_of(spec_root_components(root), spec_candidate(root, rel)) {
        Some(join_components(spec_candidate(root, rel)))
    } else {
        None
    }
}

/// Splits a path string into its non-empty components.
fn split_path(s: &str) -> (r: Vec<String>)
    ensures
        r.deep_view() == path_components(s@),
{
    let n = s.unicode_len();
    let mut acc: Vec<String> = Vec::new();
    let mut i: usize = 0;
    let mut start: usize = 0;
    proof {
        assert(acc.deep_view() =~= Seq::<Seq<char>>::empty());
    }
    while i < n
        invariant
            n == s@.len(),
            0 <= start <= i <= n,
            split_scan(s@, i as int, start as int, acc.deep_view()) == path_components(s@),
        decreases n - i,
    {
        let c = s.get_char(i);
        if c == '/' {
            if start < i {
                let ghost old_acc = acc.deep_view();
                let comp = s.substring_char(start, i).to_owned();
                acc.push(comp);
                proof {
                    assert(acc.deep_view() =~= old_acc.push(s@.subrange(start as int, i as int)));
                }
            }
            start = i + 1;
        }
        i = i + 1;
    }
    if start < n {
        let ghost old_acc = acc.deep_view();
        let comp = s.substring_char(start, n).to_owned();
        acc.push(comp);
        proof {
            assert(acc.deep_view() =~= old_acc.push(s@.subrange(start as int, n as int)));
        }
    }
    acc
}

/// Applies `.` and `..` to a component list, left to right.
fn normalize_path(comps: Vec<String>) -> (r: Vec<String>)
    ensures
        r.deep_view() == normalize_components(comps.deep_view()),
{
    let dot: String = ".".to_owned();
    let dotdot: String = "..".to_owned();
    let n = comps.len();
    let mut acc: Vec<String> = Vec::new();
    let mut i: usize = 0;
    proof {
        assert(acc.deep_view() =~= Seq::<Seq<char>>::empty());
    }
    while i < n
        invariant
            n == comps@.len(),
            0 <= i <= n,
            dot@ == "."@,
            dotdot@ == ".."@,
            normalize_scan(comps.deep_view(), i as int, acc.deep_view()) == normalize_components(
                comps.deep_view(),
            ),
        decreases n - i,
    {
        let ghost old_acc = acc.deep_view();
        if comps[i] == dot {
            // dropped
        } else if comps[i] == dotdot {
            if acc.len() > 0 {
                acc.pop();
                proof {
                    assert(acc.deep_view() =~= old_acc.drop_last());
                }
            }
        } else {
            let comp = comps[i].clone();
            acc.push(comp);
            proof {
                assert(acc.deep_view() =~= old_acc.push(comps.deep_view()[i as int]));
            }
        }
        i = i + 1;
    }
    acc
}

/// Component-wise prefix test.
fn is_component_prefix(pre: &Vec<String>, full: &Vec<String>) -> (r: bool)
    ensures
        r == prefix_of(pre.deep_view(), full.deep_view()),
{
    let pn = pre.len();
    let fnn = full.len();
    if pn > fnn {
        return false;
    }
    let mut i: usize = 0;
    while i < pn
        invariant
            pn == pre@.len(),
            fnn == full@.len(),
            pn <= fnn,
            0 <= i <= pn,
            forall|j: int| 0 <= j < i ==> full.deep_view()[j] == pre.deep_view()[j],
        decreases pn - i,
    {
        if !(full[i] == pre[i]) {
            proof {
                assert(full.deep_view()[i as int] != pre.deep_view()[i as int]);
            }
            return false;
        }
        i = i + 1;
    }
    true
}

/// Reassembles normalized components into an absolute path string.
fn join_path(comps: &Vec<String>) -> (r: String)
    ensures
        r@ == join_components(comps.deep_view()),
{
    let n = comps.len();
    if n == 0 {
        return "/".to_owned();
    }
    let mut out = String::new();
    let mut i: usize = 0;
    while i < n
        invariant
            n == comps@.len(),
            n > 0,
            0 <= i <= n,
            join_scan(comps.deep_view(), i as int, out@) == join_components(comps.deep_view()),
        decreases n - i,
    {
        out.append("/");
        out.append(comps[i].as_str());
        i = i + 1;
    }
    out
}

/// Resolves a user-supplied path against a project root, lexically.
///
/// The root must be an absolute path (callers canonicalize it first).
/// The request's components are appended to the root's — or replace
/// them when the request itself is absolute — then `.` and `..` are
/// applied without consulting the filesystem, so that no `..` sequence
/// can be concealed by a symlink.  The reassembled path is returned
/// only when the normalized root remains a component-wise prefix of
/// the result; every escape, by `..` or by an absolute path to a
/// sibling, is denied.
pub fn resolve_under_root(root: &str, rel: &str) -> (r: Option<String>)
    ensures
        r.deep_view() == spec_resolved(root@, rel@),
{
    let root_len = root.unicode_len();
    if root_len == 0 || root.get_char(0) != '/' {
        return None;
    }
    let rootc = normalize_path(split_path(root));
    let rel_len = rel.unicode_len();
    let rel_abs = rel_len > 0 && rel.get_char(0) == '/';
    let cand_raw: Vec<String> = if rel_abs {
        split_path(rel)
    } else {
        let mut a = split_path(root);
        let mut b = split_path(rel);
        let ghost av = a.deep_view();
        let ghost bv = b.deep_view();
        a.append(&mut b);
        proof {
            assert(a.deep_view() =~= av + bv);
        }
        a
    };
    let cand = normalize_path(cand_raw);
    if is_component_prefix(&rootc, &cand) {
        Some(join_path(&cand))
    } else {
        None
    }
}

/// Whether `path` lies within `root`, component-wise, after both are
/// lexically normalized.  Callers hand in already-canonicalized paths
/// for the sandbox's second phase: the deepest existing ancestor of a
/// candidate must still sit under the canonicalized root.
pub fn path_within(root: &str, path: &str) -> (r: bool)
    ensures
        r == prefix_of(
            spec_root_components(root@),
            normalize_components(path_components(path@)),
        ),
{
    let rootc = normalize_path(split_path(root));
    let pathc = normalize_path(split_path(path));
    is_component_prefix(&rootc, &pathc)
}

/// Resolves a path under the root or reports the escape with its
/// stable kind: a request that the sandbox refuses is always a
/// `PathEscape`, never anything weaker.
pub fn sandbox_resolve(root: &str, rel: &str) -> (r: Result<String, ErrorKind>)
    ensures
        spec_resolved(root@, rel@) is Some ==> r is Ok && r.unwrap()@ == spec_resolved(
            root@,
            rel@,
        ).unwrap(),
        spec_resolved(root@, rel@) is None ==> r == Result::<String, ErrorKind>::Err(
            ErrorKind::PathEscape,
        ),
{
    match resolve_under_root(root, rel) {
        Some(p) => Ok(p),
        None => Err(ErrorKind::PathEscape),
    }
}

/// The sandbox invariant: whatever `resolve_under_root` admits keeps
/// the normalized root as a prefix of its components, so the resolved
/// path lies within the root.
pub proof fn lemma_resolved_contained(root: Seq<char>, rel: Seq<char>)
    ensures
        spec_resolved(root, rel) is Some ==> prefix_of(
            spec_root_components(root),
            spec_candidate(root, rel),
        ),
{
}

/// Every request that lexically escapes the root — its normalized
/// candidate does not keep the root's components as a prefix, be it by
/// `..` climbing out or by an absolute path to a sibling — is denied.
pub proof fn lemma_escape_denied(root: Seq<char>, rel: Seq<char>)
    requires
        !prefix_of(spec_root_components(root), spec_candidate(root, rel)),
    ensures
        spec_resolved(root, rel) is None,
{
}

} // verus!
