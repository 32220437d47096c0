//! Resolution of a request target to a plan of action.
//!
//! The target token of the request line is percent-decoded and its leading
//! slashes stripped.  An empty tail stands for the root directory itself.  A
//! non-empty tail is refused outright when it is absolute or contains a
//! parent-directory segment; otherwise the caller joins it onto the root,
//! canonicalizes, and checks the result against the canonical root with
//! [`is_confined`].
use vstd::prelude::*;
use crate::codec::{decoded, url_decode};
use crate::strutil::{find_first, first_index_of, str_eq};

verus! {

/// The first line of the request text: everything before the first newline,
/// with a carriage return stripped when one preceded that newline; the whole
/// text when it has no newline.
pub open spec fn spec_first_line(r: Seq<char>) -> Seq<char> {
    let j = first_index_of(r, '\n');
    if j < 0 {
        r
    } else {
        let line = r.take(j);
        if line.len() > 0 && line.last() == '\r' {
            line.drop_last()
        } else {
            line
        }
    }
}

/// The request target: the second space-delimited token of the first line,
/// or nothing when the request is empty or its first line has no space.
pub open spec fn spec_target(r: Seq<char>) -> Option<Seq<char>> {
    if r.len() == 0 {
        None
    } else {
        let line = spec_first_line(r);
        let s1 = first_index_of(line, ' ');
        if s1 < 0 {
            None
        } else {
            let rest = line.skip(s1 + 1);
            let s2 = first_index_of(rest, ' ');
            if s2 < 0 {
                Some(rest)
            } else {
                Some(rest.take(s2))
            }
        }
    }
}

/// `s` with all leading slashes removed.
pub open spec fn strip_leading_slashes(s: Seq<char>) -> Seq<char>
    decreases s.len(),
{
    if s.len() > 0 && s[0] == '/' {
        strip_leading_slashes(s.skip(1))
    } else {
        s
    }
}

/// The tail of the request: its decoded target with leading slashes
/// stripped, or nothing when the request carries no target.
pub open spec fn spec_tail_of(r: Seq<char>) -> Option<Seq<char>> {
    match spec_target(r) {
        None => None,
        Some(t) => Some(strip_leading_slashes(decoded(t))),
    }
}

/// `t` contains a parent-directory segment: a `..` bounded by slashes or by
/// the ends of the text.
pub open spec fn has_dotdot_segment(t: Seq<char>) -> bool {
    exists|i: int|
        0 <= i && i + 2 <= t.len() && (#[trigger] t[i]) == '.' && t[i + 1] == '.' && (i == 0 || t[i
            - 1] == '/') && (i + 2 == t.len() || t[i + 2] == '/')
}

/// A tail the pre-filter refuses: an absolute path, or one with a
/// parent-directory segment.
pub open spec fn spec_tail_blocked(t: Seq<char>) -> bool {
    (t.len() > 0 && t[0] == '/') || has_dotdot_segment(t)
}

/// What the dispatcher decides about a request before any filesystem work.
pub enum RequestPlan {
    /// The request is malformed or its tail is refused outright.
    Reject,
    /// The empty tail: the root directory itself, no filesystem walk needed.
    UseRoot,
    /// A tail to join onto the root and canonicalize.
    Probe { tail: String },
}

/// Extracts the target token from the request line.
pub fn request_target<'a>(request: &'a str) -> (r: Option<&'a str>)
    ensures
        match r {
            Some(t) => spec_target(request@) == Some(t@),
            None => spec_target(request@) is None,
        },
{
    let len = request.unicode_len();
    if len == 0 {
        return None;
    }
    let newline = find_first(request, '\n');
    let line = match newline {
        Some(j) => {
            let l0 = request.substring_char(0, j);
            proof {
                assert(l0@ =~= request@.take(j as int));
            }
            if j > 0 && l0.get_char(j - 1) == '\r' {
                let l1 = request.substring_char(0, j - 1);
                proof {
                    assert(l1@ =~= request@.take(j as int).drop_last());
                }
                l1
            } else {
                l0
            }
        },
        None => {
            proof {
                assert(request@.take(len as int) =~= request@);
            }
            request
        },
    };
    let llen = line.unicode_len();
    let s1 = match find_first(line, ' ') {
        Some(j) => j,
        None => {
            return None;
        },
    };
    let rest = line.substring_char(s1 + 1, llen);
    proof {
        assert(rest@ =~= line@.skip(s1 + 1));
    }
    match find_first(rest, ' ') {
        Some(s2) => {
            let tok = rest.substring_char(0, s2);
            proof {
                assert(tok@ =~= rest@.take(s2 as int));
            }
            Some(tok)
        },
        None => Some(rest),
    }
}

/// Strips the leading slashes of `s`.
fn strip_slashes<'a>(s: &'a str) -> (r: &'a str)
    ensures
        r@ == strip_leading_slashes(s@),
{
    let len = s.unicode_len();
    let mut k: usize = 0;
    proof {
        assert(s@.skip(0) =~= s@);
    }
    while k < len && s.get_char(k) == '/'
        invariant
            len == s@.len(),
            0 <= k <= len,
            strip_leading_slashes(s@) == strip_leading_slashes(s@.skip(k as int)),
        decreases len - k,
    {
        proof {
            assert(s@.skip(k as int)[0] == s@[k as int]);
            assert(s@.skip(k as int).skip(1) =~= s@.skip(k + 1));
        }
        k = k + 1;
    }
    let r = s.substring_char(k, len);
    proof {
        if k < len {
            assert(s@.skip(k as int)[0] == s@[k as int]);
        }
        assert(strip_leading_slashes(s@.skip(k as int)) == s@.skip(k as int));
        assert(r@ =~= s@.skip(k as int));
    }
    r
}

/// Scans `t` for a parent-directory segment.
fn has_dotdot(t: &str) -> (r: bool)
    ensures
        r == has_dotdot_segment(t@),
{
    let len = t.unicode_len();
    if len < 2 {
        return false;
    }
    let mut i: usize = 0;
    while len - i >= 2
        invariant
            len == t@.len(),
            2 <= len,
            0 <= i <= len,
            forall|k: int|
                0 <= k < i ==> !(k + 2 <= t@.len() && (#[trigger] t@[k]) == '.' && t@[k + 1] == '.'
                    && (k == 0 || t@[k - 1] == '/') && (k + 2 == t@.len() || t@[k + 2] == '/')),
        decreases len - i,
    {
        let seg_start = i == 0 || t.get_char(i - 1) == '/';
        let seg_end = i + 2 == len || t.get_char(i + 2) == '/';
        if seg_start && seg_end && t.get_char(i) == '.' && t.get_char(i + 1) == '.' {
            return true;
        }
        i = i + 1;
    }
    false
}

/// Decides what a request asks for, before any filesystem work: a malformed
/// or blocked request is rejected; an empty tail is the root itself; any
/// other tail must be probed on the filesystem.
pub fn plan_request(request: &str) -> (p: RequestPlan)
    ensures
        match spec_tail_of(request@) {
            None => p is Reject,
            Some(tail) => if tail.len() == 0 {
                p is UseRoot
            } else if spec_tail_blocked(tail) {
                p is Reject
            } else {
                p matches RequestPlan::Probe { tail: t } && t@ == tail
            },
        },
{
    let target = match request_target(request) {
        Some(t) => t,
        None => {
            return RequestPlan::Reject;
        },
    };
    let decoded_target = url_decode(target);
    let tail = strip_slashes(decoded_target.as_str());
    let tlen = tail.unicode_len();
    if tlen == 0 {
        return RequestPlan::UseRoot;
    }
    if tail.get_char(0) == '/' {
        return RequestPlan::Reject;
    }
    if has_dotdot(tail) {
        return RequestPlan::Reject;
    }
    RequestPlan::Probe { tail: String::from_str(tail) }
}

/// `p` with the platform long-path marker stripped, when it carries one.
pub open spec fn strip_verbatim_prefix(p: Seq<char>) -> Seq<char> {
    if p.len() >= 4 && p[0] == '\\' && p[1] == '\\' && p[2] == '?' && p[3] == '\\' {
        p.skip(4)
    } else {
        p
    }
}

/// Component-wise path prefix: `cand` equals `root`, or extends it at a
/// separator boundary.
pub open spec fn spec_path_within(cand: Seq<char>, root: Seq<char>) -> bool {
    cand == root || (cand.len() > root.len() && cand.take(root.len() as int) == root && (root.len()
        > 0 && root.last() == '/' || cand[root.len() as int] == '/'))
}

/// The confinement check: after stripping any long-path marker from both,
/// the canonical candidate is the canonical root or a descendant of it.
pub open spec fn spec_confined(cand: Seq<char>, root: Seq<char>) -> bool {
    spec_path_within(strip_verbatim_prefix(cand), strip_verbatim_prefix(root))
}

/// Strips a leading long-path marker.
fn strip_verbatim<'a>(p: &'a str) -> (r: &'a str)
    ensures
        r@ == strip_verbatim_prefix(p@),
{
    let len = p.unicode_len();
    if len >= 4 && p.get_char(0) == '\\' && p.get_char(1) == '\\' && p.get_char(2) == '?'
        && p.get_char(3) == '\\' {
        let r = p.substring_char(4, len);
        proof {
            assert(r@ =~= p@.skip(4));
        }
        r
    } else {
        p
    }
}

/// Whether the first `r.len()` characters of `c` are exactly `r`.
fn starts_with_chars(c: &str, r: &str) -> (res: bool)
    ensures
        res == (c@.len() >= r@.len() && c@.take(r@.len() as int) == r@),
{
    let cl = c.unicode_len();
    let rl = r.unicode_len();
    if cl < rl {
        return false;
    }
    let mut i: usize = 0;
    while i < rl
        invariant
            cl == c@.len(),
            rl == r@.len(),
            rl <= cl,
            0 <= i <= rl,
            forall|k: int| 0 <= k < i ==> c@[k] == r@[k],
        decreases rl - i,
    {
        if c.get_char(i) != r.get_char(i) {
            proof {
                assert(c@.take(r@.len() as int)[i as int] == c@[i as int]);
            }
            return false;
        }
        i = i + 1;
    }
    proof {
        assert(c@.take(r@.len() as int) =~= r@);
    }
    true
}

/// Decides whether the canonical path `candidate` stays within the canonical
/// root directory `root`.
pub fn is_confined(candidate: &str, root: &str) -> (r: bool)
    ensures
        r == spec_confined(candidate@, root@),
{
    let c = strip_verbatim(candidate);
    let ro = strip_verbatim(root);
    if str_eq(c, ro) {
        return true;
    }
    let cl = c.unicode_len();
    let rl = ro.unicode_len();
    if cl > rl && starts_with_chars(c, ro) {
        if rl > 0 && ro.get_char(rl - 1) == '/' {
            return true;
        }
        c.get_char(rl) == '/'
    } else {
        false
    }
}

} // verus!
