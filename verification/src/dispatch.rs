//! The request dispatcher: from a raw request and the caller's filesystem
//! probe to the complete response bytes.
//!
//! The dispatcher itself touches no filesystem.  The caller first asks
//! [`crate::resolve::plan_request`] what a request needs, performs the
//! filesystem work — canonicalizing the joined path, reading the file or the
//! directory — and hands the outcomes in as an [`FsProbe`].  The dispatcher
//! then re-derives the plan, applies the confinement check, and builds the
//! response; [`spec_response`] pins the result for every probe value.
use vstd::prelude::*;
use crate::resolve::{
    is_confined, plan_request, spec_confined, spec_tail_blocked, spec_tail_of, RequestPlan,
};
use crate::response::{
    bad_request_response, generate_directory_response, generate_file_response, spec_bad_request,
    spec_dir_response, spec_file_response, DirEntryInfo,
};

verus! {

/// What the caller found at the resolved path.
pub struct FsNode {
    /// The canonical path of the node, as canonicalization returned it.
    pub path: String,
    /// The node is a regular file.
    pub is_file: bool,
    /// The node is a directory.
    pub is_dir: bool,
    /// The binary read result for a file classified image or video;
    /// `None` when the read failed or was not attempted.
    pub bytes: Option<Vec<u8>>,
    /// The text read result for any other file; `None` when the read
    /// failed or was not attempted.
    pub text: Option<String>,
    /// The directory's entries in reading order; `None` when listing the
    /// directory failed or was not attempted.
    pub entries: Option<Vec<DirEntryInfo>>,
}

/// The caller's filesystem findings for one request.
pub struct FsProbe {
    /// The served root directory as configured, used to decide whether a
    /// listing shows a parent link.
    pub root_display: String,
    /// The canonicalized root, or `None` when canonicalizing it failed.
    pub canonical_root: Option<String>,
    /// The node the request's tail led to: for the empty tail, the root
    /// itself; otherwise the canonicalized joined path, or `None` when
    /// canonicalization failed.
    pub node: Option<FsNode>,
}

/// The response for a resolved node: a file's contents, a directory's
/// listing, or — for anything else — the bad-request response.
pub open spec fn spec_node_response(tail: Seq<char>, n: FsNode, root_display: Seq<char>) -> Seq<
    u8,
> {
    if n.is_file {
        spec_file_response(n.path@, n.bytes, n.text)
    } else if n.is_dir {
        spec_dir_response(n.path@, tail, n.entries, root_display)
    } else {
        spec_bad_request()
    }
}

/// The complete response for `r` given the probe: a request without a
/// usable target, with a blocked tail, with a failed canonicalization, or
/// whose canonical path escapes the canonical root is answered with the
/// bad-request response; everything else is answered from the node.
pub open spec fn spec_response(r: Seq<char>, probe: FsProbe) -> Seq<u8> {
    match spec_tail_of(r) {
        None => spec_bad_request(),
        Some(tail) => if tail.len() == 0 {
            match probe.node {
                Some(n) => spec_node_response(tail, n, probe.root_display@),
                None => spec_bad_request(),
            }
        } else if spec_tail_blocked(tail) {
            spec_bad_request()
        } else {
            match (probe.node, probe.canonical_root) {
                (Some(n), Some(cr)) => if spec_confined(n.path@, cr@) {
                    spec_node_response(tail, n, probe.root_display@)
                } else {
                    spec_bad_request()
                },
                _ => spec_bad_request(),
            }
        },
    }
}

/// The response for the resolved node.
fn node_response(tail: &str, n: &FsNode, root_display: &str) -> (r: Vec<u8>)
    ensures
        r@ == spec_node_response(tail@, *n, root_display@),
{
    if n.is_file {
        generate_file_response(n.path.as_str(), &n.bytes, &n.text)
    } else if n.is_dir {
        generate_directory_response(n.path.as_str(), tail, &n.entries, root_display)
    } else {
        bad_request_response()
    }
}

/// Answers one request from the caller's filesystem probe.
pub fn handle_request(request: &str, probe: &FsProbe) -> (r: Vec<u8>)
    ensures
        r@ == spec_response(request@, *probe),
{
    match plan_request(request) {
        RequestPlan::Reject => bad_request_response(),
        RequestPlan::UseRoot => {
            match &probe.node {
                Some(n) => {
                    proof {
                        reveal_strlit("");
                        assert(""@ =~= spec_tail_of(request@)->Some_0);
                    }
                    node_response("", n, probe.root_display.as_str())
                },
                None => bad_request_response(),
            }
        },
        RequestPlan::Probe { tail } => {
            match (&probe.node, &probe.canonical_root) {
                (Some(n), Some(cr)) => {
                    if is_confined(n.path.as_str(), cr.as_str()) {
                        node_response(tail.as_str(), n, probe.root_display.as_str())
                    } else {
                        bad_request_response()
                    }
                },
                _ => bad_request_response(),
            }
        },
    }
}

/// A request whose decoded tail is absolute or contains a parent-directory
/// segment is answered with the bad-request response, whatever the
/// filesystem probe holds: the pre-filter rejects it before any filesystem
/// fact is consulted.
pub proof fn lemma_blocked_tail_rejected(r: Seq<char>, probe: FsProbe)
    requires
        spec_tail_of(r) matches Some(tail) && tail.len() > 0 && spec_tail_blocked(tail),
    ensures
        spec_response(r, probe) == spec_bad_request(),
{
}

/// A request whose canonical path is not confined to the canonical root is
/// answered with the bad-request response, whatever the node holds; so is
/// one whose canonicalization failed.
pub proof fn lemma_unconfined_rejected(r: Seq<char>, probe: FsProbe)
    requires
        spec_tail_of(r) matches Some(tail) && tail.len() > 0,
        probe.node matches Some(n) ==> (probe.canonical_root matches Some(cr)
            && !spec_confined(n.path@, cr@)),
    ensures
        spec_response(r, probe) == spec_bad_request(),
{
}

/// A confined regular file that is not an image or a video, and whose text
/// read succeeded, is answered with the plain 200 response: the classified
/// MIME type and the file's text as the body.
pub proof fn lemma_text_file_served(r: Seq<char>, probe: FsProbe)
    requires
        spec_tail_of(r) matches Some(tail) && tail.len() > 0 && !spec_tail_blocked(tail),
        probe.node matches Some(n),
        probe.canonical_root matches Some(cr),
        spec_confined(probe.node->Some_0.path@, probe.canonical_root->Some_0@),
        probe.node->Some_0.is_file,
        !crate::mime::spec_is_image(probe.node->Some_0.path@),
        !crate::mime::spec_is_video(probe.node->Some_0.path@),
        probe.node->Some_0.text matches Some(t),
    ensures
        spec_response(r, probe) == vstd::utf8::encode_utf8(
            crate::response::spec_text_response(
                crate::mime::spec_mime_type(probe.node->Some_0.path@),
                probe.node->Some_0.text->Some_0@,
            ),
        ),
{
}

/// A confined directory whose listing was read successfully is answered
/// with a 200 response of type text/html carrying the listing document.
pub proof fn lemma_directory_served(r: Seq<char>, probe: FsProbe)
    requires
        spec_tail_of(r) matches Some(tail) && tail.len() > 0 && !spec_tail_blocked(tail),
        probe.node matches Some(n),
        probe.canonical_root matches Some(cr),
        spec_confined(probe.node->Some_0.path@, probe.canonical_root->Some_0@),
        !probe.node->Some_0.is_file,
        probe.node->Some_0.is_dir,
        probe.node->Some_0.entries matches Some(es),
    ensures
        spec_response(r, probe) == vstd::utf8::encode_utf8(
            "HTTP/1.1 200 OK\r\nContent-Type: text/html\r\n\r\n"@
                + crate::response::spec_dir_html(
                probe.node->Some_0.path@,
                spec_tail_of(r)->Some_0,
                probe.node->Some_0.entries->Some_0@,
                probe.root_display@,
            ),
        ),
{
}

} // verus!
