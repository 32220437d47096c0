//! Construction of the HTTP responses: file contents, directory listings,
//! and the error responses.
//!
//! Every builder returns the complete response as bytes — status line,
//! headers, blank line, body — and its contract pins those bytes exactly.
use vstd::prelude::*;
use vstd::string::StringExecFns;
use vstd::utf8::encode_utf8;
use crate::codec::{encoded, url_encode};
use crate::mime::{
    get_mime_type, is_image_file, is_video_file, spec_is_image, spec_is_video, spec_mime_type,
};
use crate::strutil::{
    find_last, last_index_of, push_str, spec_contains, spec_dec, str_contains, str_eq,
    string_to_bytes, usize_to_dec_string,
};

verus! {

/// One entry of a directory listing, as the caller read it from the
/// directory: its bare name and whether it is itself a directory.
pub struct DirEntryInfo {
    pub name: String,
    pub is_dir: bool,
}

/// The response for a request that could not be resolved.
pub open spec fn spec_bad_request() -> Seq<u8> {
    encode_utf8("HTTP/1.1 400 Bad Request\r\n\r\nBad Request"@)
}

/// Builds the bad-request response.
pub fn bad_request_response() -> (r: Vec<u8>)
    ensures
        r@ == spec_bad_request(),
{
    string_to_bytes("HTTP/1.1 400 Bad Request\r\n\r\nBad Request")
}

/// The header of a binary file response, including the blank line.
pub open spec fn spec_binary_header(mime: Seq<char>, len: nat) -> Seq<char> {
    "HTTP/1.1 200 OK\r\nContent-Type: "@ + mime + "\r\nContent-Length: "@ + spec_dec(len)
        + "\r\n\r\n"@
}

/// The full text of a text file response.
pub open spec fn spec_text_response(mime: Seq<char>, body: Seq<char>) -> Seq<char> {
    "HTTP/1.1 200 OK\r\nContent-Type: "@ + mime + "\r\n\r\n"@ + body
}

/// The response for a file, given the read results the caller obtained:
/// `bytes` for a file classified image or video, `text` otherwise, each
/// `None` when the read failed.
pub open spec fn spec_file_response(
    path: Seq<char>,
    bytes: Option<Vec<u8>>,
    text: Option<String>,
) -> Seq<u8> {
    if spec_is_image(path) || spec_is_video(path) {
        match bytes {
            Some(b) => encode_utf8(spec_binary_header(spec_mime_type(path), b@.len())) + b@,
            None => if spec_is_image(path) {
                encode_utf8("HTTP/1.1 500 Internal Server Error\r\n\r\nError reading image file"@)
            } else {
                encode_utf8("HTTP/1.1 500 Internal Server Error\r\n\r\nError reading video file"@)
            },
        }
    } else {
        match text {
            Some(t) => encode_utf8(spec_text_response(spec_mime_type(path), t@)),
            None => encode_utf8("HTTP/1.1 500 Internal Server Error\r\n\r\nError reading file"@),
        }
    }
}

/// Appends the bytes of `src` onto `dst`.
fn append_bytes(dst: &mut Vec<u8>, src: &Vec<u8>)
    ensures
        final(dst)@ == old(dst)@ + src@,
{
    let mut i: usize = 0;
    while i < src.len()
        invariant
            0 <= i <= src@.len(),
            dst@ == old(dst)@ + src@.take(i as int),
        decreases src@.len() - i,
    {
        dst.push(src[i]);
        proof {
            assert(src@.take(i + 1) =~= src@.take(i as int).push(src@[i as int]));
            assert(dst@ =~= old(dst)@ + src@.take(i + 1));
        }
        i = i + 1;
    }
    proof {
        assert(src@.take(src@.len() as int) =~= src@);
    }
}

/// Builds the response for the regular file `file_path`.  `bytes` is the
/// caller's binary read result, consulted when the file is classified image
/// or video; `text` is the caller's text read result, consulted otherwise.
pub fn generate_file_response(file_path: &str, bytes: &Option<Vec<u8>>, text: &Option<String>) -> (r:
    Vec<u8>)
    ensures
        r@ == spec_file_response(file_path@, *bytes, *text),
{
    let mime = get_mime_type(file_path);
    if is_image_file(file_path) || is_video_file(file_path) {
        match bytes {
            Some(contents) => {
                let mut header = String::from_str("HTTP/1.1 200 OK\r\nContent-Type: ");
                push_str(&mut header, mime);
                push_str(&mut header, "\r\nContent-Length: ");
                let len_text = usize_to_dec_string(contents.len());
                push_str(&mut header, len_text.as_str());
                push_str(&mut header, "\r\n\r\n");
                proof {
                    assert(header@ =~= spec_binary_header(
                        spec_mime_type(file_path@),
                        contents@.len(),
                    ));
                }
                let mut r = string_to_bytes(header.as_str());
                append_bytes(&mut r, contents);
                r
            },
            None => if is_image_file(file_path) {
                string_to_bytes("HTTP/1.1 500 Internal Server Error\r\n\r\nError reading image file")
            } else {
                string_to_bytes("HTTP/1.1 500 Internal Server Error\r\n\r\nError reading video file")
            },
        }
    } else {
        match text {
            Some(contents) => {
                let mut page = String::from_str("HTTP/1.1 200 OK\r\nContent-Type: ");
                push_str(&mut page, mime);
                push_str(&mut page, "\r\n\r\n");
                push_str(&mut page, contents.as_str());
                proof {
                    assert(page@ =~= spec_text_response(spec_mime_type(file_path@), contents@));
                }
                string_to_bytes(page.as_str())
            },
            None => string_to_bytes("HTTP/1.1 500 Internal Server Error\r\n\r\nError reading file"),
        }
    }
}

/// The platform long-path marker.
pub open spec fn verbatim_marker() -> Seq<char> {
    seq!['\\', '\\', '?', '\\']
}

/// The listing heading: the directory path, wrapped in an explanatory
/// annotation when it carries a long-path marker.
pub open spec fn spec_heading(path: Seq<char>) -> Seq<char> {
    if spec_contains(path, verbatim_marker()) {
        "<abbr title=\"'\\\\?\\' is a Windows MAX_PATH feature that allows paths longer than 260 characters\">"@
            + path + "</abbr>"@
    } else {
        path
    }
}

/// The link target of the parent directory: the tail with its last path
/// segment removed.
pub open spec fn spec_parent_url(tail: Seq<char>) -> Seq<char> {
    let j = last_index_of(tail, '/');
    if j < 0 {
        Seq::empty()
    } else {
        tail.take(j)
    }
}

/// Whether a path has a parent at all: everything but the filesystem root
/// and the empty path.
pub open spec fn spec_has_parent(path: Seq<char>) -> bool {
    path.len() > 0 && path != "/"@
}

/// The parent-directory link, present only when the listed directory has a
/// parent and is not the served root itself.
pub open spec fn spec_parent_part(path: Seq<char>, tail: Seq<char>, root: Seq<char>) -> Seq<char> {
    if spec_has_parent(path) && path != root {
        "&#8592; <a href=\"/"@ + encoded(spec_parent_url(tail)) + "\">Parent Directory</a><br><br>"@
    } else {
        Seq::empty()
    }
}

/// The link target for an entry: the tail joined with the entry's name.
pub open spec fn spec_link_target(tail: Seq<char>, name: Seq<char>) -> Seq<char> {
    if tail.len() == 0 {
        name
    } else if tail.last() == '/' {
        tail + name
    } else {
        tail + seq!['/'] + name
    }
}

/// The table row for a sub-directory entry.
pub open spec fn spec_dir_row(tail: Seq<char>, name: Seq<char>) -> Seq<char> {
    "<tr><td>&#128193; <a href=\"/"@ + encoded(spec_link_target(tail, name)) + "\">"@ + name
        + "</a></td><td class=\"actions\">-</td></tr>"@
}

/// The table row for a file entry.
pub open spec fn spec_file_row(tail: Seq<char>, name: Seq<char>) -> Seq<char> {
    "<tr><td>&#128196; "@ + name + "</td><td class=\"actions\"><a href=\"/"@ + encoded(
        spec_link_target(tail, name),
    ) + "\" download>Download</a><a href=\"/"@ + encoded(spec_link_target(tail, name))
        + "\">View</a></td></tr>"@
}

/// The rows for the entries of one kind, in the order given: sub-directories
/// when `dirs` is set, files otherwise.
pub open spec fn spec_rows(entries: Seq<DirEntryInfo>, tail: Seq<char>, dirs: bool) -> Seq<char>
    decreases entries.len(),
{
    if entries.len() == 0 {
        Seq::empty()
    } else {
        spec_rows(entries.drop_last(), tail, dirs) + (if entries.last().is_dir == dirs {
            if dirs {
                spec_dir_row(tail, entries.last().name@)
            } else {
                spec_file_row(tail, entries.last().name@)
            }
        } else {
            Seq::<char>::empty()
        })
    }
}

/// The fixed document head of a listing, up to and including the opening of
/// the heading element.
pub open spec fn spec_listing_head() -> Seq<char> {
    "<!DOCTYPE html>\n        <html>\n        <head>\n            <style>\n                body { font-family: monospace; background: #fff; color: #111; margin: 20px; }\n                a { color: #0000ff; text-decoration: none; }\n                a:hover { text-decoration: underline; }\n                table { border-collapse: collapse; width: 100%; margin-top: 20px; }\n                th, td { padding: 8px 12px; text-align: left; border-bottom: 1px solid #ddd; }\n                th { background-color: #f5f5f5; font-weight: bold; }\n                .actions { white-space: nowrap; }\n                .actions a { margin-right: 10px; }\n                @media (prefers-color-scheme: dark) {\n                    body { background: #111111; color: #ffffff; }\n                    a { color: #00ff00; }\n                    th { background-color: #333; }\n                    th, td { border-bottom: 1px solid #555; }\n                }\n            </style>\n        </head>\n        <body>\n        <h1>"@
}

/// The full HTML document listing `entries` of the directory `path`.
pub open spec fn spec_dir_html(
    path: Seq<char>,
    tail: Seq<char>,
    entries: Seq<DirEntryInfo>,
    root: Seq<char>,
) -> Seq<char> {
    spec_listing_head() + spec_heading(path) + "</h1>"@ + spec_parent_part(path, tail, root)
        + "<table><thead><tr><th>Name</th><th>Actions</th></tr></thead><tbody>"@ + spec_rows(
        entries,
        tail,
        true,
    ) + spec_rows(entries, tail, false) + "</tbody></table>"@ + "</body></html>"@
}

/// The response for the directory `path`: its listing, or the error response
/// when the caller could not read the directory (`entries` is `None`).
pub open spec fn spec_dir_response(
    path: Seq<char>,
    tail: Seq<char>,
    entries: Option<Vec<DirEntryInfo>>,
    root: Seq<char>,
) -> Seq<u8> {
    match entries {
        Some(es) => encode_utf8(
            "HTTP/1.1 200 OK\r\nContent-Type: text/html\r\n\r\n"@ + spec_dir_html(
                path,
                tail,
                es@,
                root,
            ),
        ),
        None => encode_utf8("HTTP/1.1 500 Internal Server Error\r\n\r\nError reading directory"@),
    }
}

proof fn lemma_rows_contain(entries: Seq<DirEntryInfo>, tail: Seq<char>, dirs: bool, i: int)
    requires
        0 <= i < entries.len(),
        entries[i].is_dir == dirs,
    ensures
        spec_contains(
            spec_rows(entries, tail, dirs),
            if dirs {
                spec_dir_row(tail, entries[i].name@)
            } else {
                spec_file_row(tail, entries[i].name@)
            },
        ),
    decreases entries.len(),
{
    let row = if dirs {
        spec_dir_row(tail, entries[i].name@)
    } else {
        spec_file_row(tail, entries[i].name@)
    };
    if i == entries.len() - 1 {
        crate::strutil::lemma_contains_self(row);
        crate::strutil::lemma_contains_concat_left(
            spec_rows(entries.drop_last(), tail, dirs),
            row,
            row,
        );
    } else {
        assert(entries.drop_last()[i] == entries[i]);
        lemma_rows_contain(entries.drop_last(), tail, dirs, i);
        crate::strutil::lemma_contains_concat_right(
            spec_rows(entries.drop_last(), tail, dirs),
            if entries.last().is_dir == dirs {
                if dirs {
                    spec_dir_row(tail, entries.last().name@)
                } else {
                    spec_file_row(tail, entries.last().name@)
                }
            } else {
                Seq::<char>::empty()
            },
            row,
        );
    }
}

/// Each child entry of a listed directory has its own table row in the
/// document: for a sub-directory a link row, for a file a download-and-view
/// row, each with its link target built from the tail and the entry's name
/// and percent-encoded.
pub proof fn lemma_listing_has_entry_row(
    path: Seq<char>,
    tail: Seq<char>,
    entries: Seq<DirEntryInfo>,
    root: Seq<char>,
    i: int,
)
    requires
        0 <= i < entries.len(),
    ensures
        spec_contains(
            spec_dir_html(path, tail, entries, root),
            if entries[i].is_dir {
                spec_dir_row(tail, entries[i].name@)
            } else {
                spec_file_row(tail, entries[i].name@)
            },
        ),
{
    let row = if entries[i].is_dir {
        spec_dir_row(tail, entries[i].name@)
    } else {
        spec_file_row(tail, entries[i].name@)
    };
    let head = spec_listing_head() + spec_heading(path) + "</h1>"@ + spec_parent_part(
        path,
        tail,
        root,
    ) + "<table><thead><tr><th>Name</th><th>Actions</th></tr></thead><tbody>"@;
    let rows_d = spec_rows(entries, tail, true);
    let rows_f = spec_rows(entries, tail, false);
    lemma_rows_contain(entries, tail, entries[i].is_dir, i);
    if entries[i].is_dir {
        crate::strutil::lemma_contains_concat_left(head, rows_d, row);
        crate::strutil::lemma_contains_concat_right(head + rows_d, rows_f, row);
    } else {
        crate::strutil::lemma_contains_concat_left(head + rows_d, rows_f, row);
    }
    crate::strutil::lemma_contains_concat_right(head + rows_d + rows_f, "</tbody></table>"@, row);
    crate::strutil::lemma_contains_concat_right(
        head + rows_d + rows_f + "</tbody></table>"@,
        "</body></html>"@,
        row,
    );
}

/// A listed directory other than the served root shows the parent-directory
/// link, whose target is the tail with its last segment removed,
/// percent-encoded.
pub proof fn lemma_listing_has_parent_link(
    path: Seq<char>,
    tail: Seq<char>,
    entries: Seq<DirEntryInfo>,
    root: Seq<char>,
)
    requires
        spec_has_parent(path),
        path != root,
    ensures
        spec_contains(
            spec_dir_html(path, tail, entries, root),
            "&#8592; <a href=\"/"@ + encoded(spec_parent_url(tail))
                + "\">Parent Directory</a><br><br>"@,
        ),
{
    let link = "&#8592; <a href=\"/"@ + encoded(spec_parent_url(tail))
        + "\">Parent Directory</a><br><br>"@;
    let head = spec_listing_head() + spec_heading(path) + "</h1>"@;
    crate::strutil::lemma_contains_self(link);
    crate::strutil::lemma_contains_concat_left(head, link, link);
    crate::strutil::lemma_contains_concat_right(
        head + link,
        "<table><thead><tr><th>Name</th><th>Actions</th></tr></thead><tbody>"@,
        link,
    );
    let h2 = head + link + "<table><thead><tr><th>Name</th><th>Actions</th></tr></thead><tbody>"@;
    crate::strutil::lemma_contains_concat_right(h2, spec_rows(entries, tail, true), link);
    crate::strutil::lemma_contains_concat_right(
        h2 + spec_rows(entries, tail, true),
        spec_rows(entries, tail, false),
        link,
    );
    crate::strutil::lemma_contains_concat_right(
        h2 + spec_rows(entries, tail, true) + spec_rows(entries, tail, false),
        "</tbody></table>"@,
        link,
    );
    crate::strutil::lemma_contains_concat_right(
        h2 + spec_rows(entries, tail, true) + spec_rows(entries, tail, false)
            + "</tbody></table>"@,
        "</body></html>"@,
        link,
    );
}

/// A listing of the served root itself (or of a path with no parent) puts no
/// parent-directory link in the document: its parent part is empty, and the
/// document is exactly the head, heading, table and rows.
pub proof fn lemma_root_listing_omits_parent(
    path: Seq<char>,
    tail: Seq<char>,
    entries: Seq<DirEntryInfo>,
    root: Seq<char>,
)
    requires
        !spec_has_parent(path) || path == root,
    ensures
        spec_parent_part(path, tail, root) == Seq::<char>::empty(),
        spec_dir_html(path, tail, entries, root) == spec_listing_head() + spec_heading(path)
            + "</h1>"@ + "<table><thead><tr><th>Name</th><th>Actions</th></tr></thead><tbody>"@
            + spec_rows(entries, tail, true) + spec_rows(entries, tail, false)
            + "</tbody></table>"@ + "</body></html>"@,
{
    assert(spec_dir_html(path, tail, entries, root) =~= spec_listing_head() + spec_heading(path)
        + "</h1>"@ + "<table><thead><tr><th>Name</th><th>Actions</th></tr></thead><tbody>"@
        + spec_rows(entries, tail, true) + spec_rows(entries, tail, false) + "</tbody></table>"@
        + "</body></html>"@);
}

/// The parent link target of `tail`.
fn parent_url<'a>(tail: &'a str) -> (r: &'a str)
    ensures
        r@ == spec_parent_url(tail@),
{
    match find_last(tail, '/') {
        Some(j) => {
            let r = tail.substring_char(0, j);
            proof {
                assert(r@ =~= tail@.take(j as int));
            }
            r
        },
        None => {
            proof {
                reveal_strlit("");
                assert(""@ =~= Seq::<char>::empty());
            }
            ""
        },
    }
}

/// The link target for the entry `name` under `tail`.
fn link_target(tail: &str, name: &str) -> (r: String)
    ensures
        r@ == spec_link_target(tail@, name@),
{
    let tlen = tail.unicode_len();
    if tlen == 0 {
        String::from_str(name)
    } else {
        let mut s = String::from_str(tail);
        if tail.get_char(tlen - 1) != '/' {
            s.push('/');
        }
        push_str(&mut s, name);
        proof {
            assert(s@ =~= spec_link_target(tail@, name@));
        }
        s
    }
}

/// Builds the response for the directory `dir_path`.  `tail` is the
/// request's tail, used to build the links; `entries` is the caller's
/// directory read result; `root_display` is the served root as configured,
/// used only to decide whether a parent link is shown.
#[verifier::rlimit(60)]
pub fn generate_directory_response(
    dir_path: &str,
    tail: &str,
    entries: &Option<Vec<DirEntryInfo>>,
    root_display: &str,
) -> (r: Vec<u8>)
    ensures
        r@ == spec_dir_response(dir_path@, tail@, *entries, root_display@),
{
    let es = match entries {
        Some(es) => es,
        None => {
            return string_to_bytes(
                "HTTP/1.1 500 Internal Server Error\r\n\r\nError reading directory",
            );
        },
    };
    let mut page = String::from_str("HTTP/1.1 200 OK\r\nContent-Type: text/html\r\n\r\n");
    push_str(
        &mut page,
        "<!DOCTYPE html>\n        <html>\n        <head>\n            <style>\n                body { font-family: monospace; background: #fff; color: #111; margin: 20px; }\n                a { color: #0000ff; text-decoration: none; }\n                a:hover { text-decoration: underline; }\n                table { border-collapse: collapse; width: 100%; margin-top: 20px; }\n                th, td { padding: 8px 12px; text-align: left; border-bottom: 1px solid #ddd; }\n                th { background-color: #f5f5f5; font-weight: bold; }\n                .actions { white-space: nowrap; }\n                .actions a { margin-right: 10px; }\n                @media (prefers-color-scheme: dark) {\n                    body { background: #111111; color: #ffffff; }\n                    a { color: #00ff00; }\n                    th { background-color: #333; }\n                    th, td { border-bottom: 1px solid #555; }\n                }\n            </style>\n        </head>\n        <body>\n        <h1>",
    );
    if str_contains(dir_path, "\\\\?\\") {
        proof {
            reveal_strlit("\\\\?\\");
            assert("\\\\?\\"@ =~= verbatim_marker());
        }
        push_str(
            &mut page,
            "<abbr title=\"'\\\\?\\' is a Windows MAX_PATH feature that allows paths longer than 260 characters\">",
        );
        push_str(&mut page, dir_path);
        push_str(&mut page, "</abbr>");
    } else {
        proof {
            reveal_strlit("\\\\?\\");
            assert("\\\\?\\"@ =~= verbatim_marker());
        }
        push_str(&mut page, dir_path);
    }
    push_str(&mut page, "</h1>");
    let ghost page_after_heading = page@;
    let has_parent = dir_path.unicode_len() > 0 && !str_eq(dir_path, "/");
    if has_parent && !str_eq(dir_path, root_display) {
        let parent = parent_url(tail);
        let enc = url_encode(parent);
        push_str(&mut page, "&#8592; <a href=\"/");
        push_str(&mut page, enc.as_str());
        push_str(&mut page, "\">Parent Directory</a><br><br>");
    }
    proof {
        assert(page@ =~= page_after_heading + spec_parent_part(dir_path@, tail@, root_display@));
    }
    push_str(&mut page, "<table><thead><tr><th>Name</th><th>Actions</th></tr></thead><tbody>");
    let ghost page_before_rows = page@;
    let mut i: usize = 0;
    while i < es.len()
        invariant
            0 <= i <= es@.len(),
            page@ == page_before_rows + spec_rows(es@.take(i as int), tail@, true),
        decreases es@.len() - i,
    {
        if es[i].is_dir {
            let target = link_target(tail, es[i].name.as_str());
            let enc = url_encode(target.as_str());
            push_str(&mut page, "<tr><td>&#128193; <a href=\"/");
            push_str(&mut page, enc.as_str());
            push_str(&mut page, "\">");
            push_str(&mut page, es[i].name.as_str());
            push_str(&mut page, "</a></td><td class=\"actions\">-</td></tr>");
        }
        proof {
            assert(es@.take(i + 1).drop_last() =~= es@.take(i as int));
            assert(es@.take(i + 1).last() == es@[i as int]);
            assert(page@ =~= page_before_rows + spec_rows(es@.take(i + 1), tail@, true));
        }
        i = i + 1;
    }
    proof {
        assert(es@.take(es@.len() as int) =~= es@);
    }
    let ghost page_before_files = page@;
    let mut i: usize = 0;
    while i < es.len()
        invariant
            0 <= i <= es@.len(),
            page@ == page_before_files + spec_rows(es@.take(i as int), tail@, false),
        decreases es@.len() - i,
    {
        if !es[i].is_dir {
            let target = link_target(tail, es[i].name.as_str());
            let enc = url_encode(target.as_str());
            push_str(&mut page, "<tr><td>&#128196; ");
            push_str(&mut page, es[i].name.as_str());
            push_str(&mut page, "</td><td class=\"actions\"><a href=\"/");
            push_str(&mut page, enc.as_str());
            push_str(&mut page, "\" download>Download</a><a href=\"/");
            push_str(&mut page, enc.as_str());
            push_str(&mut page, "\">View</a></td></tr>");
        }
        proof {
            assert(es@.take(i + 1).drop_last() =~= es@.take(i as int));
            assert(es@.take(i + 1).last() == es@[i as int]);
            assert(page@ =~= page_before_files + spec_rows(es@.take(i + 1), tail@, false));
        }
        i = i + 1;
    }
    proof {
        assert(es@.take(es@.len() as int) =~= es@);
    }
    push_str(&mut page, "</tbody></table>");
    push_str(&mut page, "</body></html>");
    proof {
        assert(page@ =~= "HTTP/1.1 200 OK\r\nContent-Type: text/html\r\n\r\n"@ + spec_dir_html(
            dir_path@,
            tail@,
            es@,
            root_display@,
        ));
    }
    string_to_bytes(page.as_str())
}

} // verus!
